use vstd::prelude::*;

use std::collections::HashMap;

use crate::entry::{Address, Entry, Quantity};
use crate::error::Exception;
use crate::mapping::Mapping;
use crate::value::{value_eq, Value};

verus! {

broadcast use vstd::std_specs::hash::group_hash_axioms;

use crate::codec::Word;

/// Every address of the half-open range `[addr, addr + cnt)` lies in the
/// 16-bit address space and has an entry in the store.
pub open spec fn range_present(m: Map<Address, Word>, addr: Address, cnt: int) -> bool {
    &&& addr + cnt <= u16::MAX + 1
    &&& forall|a: Address| addr <= a < addr + cnt ==> #[trigger] m.dom().contains(a)
}

/// The store after the words were laid down at consecutive addresses
/// starting at `addr`: entries in the range are created or overwritten,
/// all others keep their value.
pub open spec fn with_range(m: Map<Address, Word>, addr: Address, words: Seq<Word>) -> Map<
    Address,
    Word,
> {
    Map::new(
        |a: Address| m.dom().contains(a) || (addr <= a < addr + words.len()),
        |a: Address|
            if addr <= a < addr + words.len() {
                words[a - addr]
            } else {
                m[a]
            },
    )
}

/// The `cnt` words stored at consecutive addresses starting at `addr`.
pub open spec fn read_seq(m: Map<Address, Word>, addr: Address, cnt: int) -> Seq<Word> {
    Seq::new(cnt as nat, |i: int| m[(addr + i) as Address])
}

/// A raw Modbus input or holding register image: sparse storage of one
/// 16-bit word per explicitly created address, no implicit defaults.
#[derive(Debug)]
pub struct Registers(HashMap<Address, Word>);

impl View for Registers {
    type V = Map<Address, Word>;

    closed spec fn view(&self) -> Map<Address, Word> {
        self.0@
    }
}

impl Default for Registers {
    /// An empty store: no address exists yet.
    fn default() -> (r: Registers)
        ensures
            r@ == Map::<Address, Word>::empty(),
    {
        Registers(HashMap::new())
    }
}

impl Clone for Registers {
    /// A clone stores the same word at the same addresses.
    fn clone(&self) -> (r: Registers)
        ensures
            r@ == self@,
    {
        Registers(self.0.clone())
    }
}

impl Registers {
    /// Creates or overwrites `words.len()` consecutive entries starting at
    /// `addr`; used when a register image is first populated.
    pub fn insert(&mut self, addr: Address, words: Vec<Word>)
        requires
            addr + words@.len() <= u16::MAX + 1,
        ensures
            final(self)@ == with_range(old(self)@, addr, words@),
    {
        let n = words.len();
        let mut i: usize = 0;
        while i < n
            invariant
                n == words@.len(),
                addr + n <= u16::MAX + 1,
                i <= n,
                self@ == with_range(old(self)@, addr, words@.take(i as int)),
            decreases n - i,
        {
            let a: Address = addr + i as u16;
            self.0.insert(a, words[i]);
            proof {
                assert(self.0@ =~= with_range(old(self)@, addr, words@.take(i + 1)));
            }
            i += 1;
        }
        proof {
            assert(words@.take(n as int) =~= words@);
        }
    }

    /// Relies on std's `HashMap::shrink_to_fit`: it only reduces unused
    /// capacity and keeps every entry.
    #[verifier::external_body]
    pub fn shrink(&mut self)
        ensures
            final(self)@ == old(self)@,
    {
        self.0.shrink_to_fit()
    }

    /// Reads `cnt` consecutive registers starting at `addr`. Fails when
    /// any address of the range was never created, returning no partial
    /// data.
    pub fn read(&self, addr: Address, cnt: Quantity) -> (r: Result<Vec<Word>, Exception>)
        ensures
            range_present(self@, addr, cnt as int) ==> ({
                &&& r matches Ok(v)
                &&& v@ == read_seq(self@, addr, cnt as int)
                &&& v@.len() == cnt
            }),
            !range_present(self@, addr, cnt as int) ==> r == Err::<Vec<Word>, Exception>(
                Exception::RegisterNotFound,
            ),
    {
        if cnt as u32 > u16::MAX as u32 + 1 - addr as u32 {
            return Err(Exception::RegisterNotFound);
        }
        let mut out: Vec<Word> = Vec::new();
        let mut i: u16 = 0;
        while i < cnt
            invariant
                addr + cnt <= u16::MAX + 1,
                i <= cnt,
                forall|a: Address| addr <= a < addr + i ==> #[trigger] self@.dom().contains(a),
                out@ == read_seq(self@, addr, i as int),
            decreases cnt - i,
        {
            let a: Address = addr + i;
            match self.0.get(&a) {
                Some(w) => {
                    out.push(*w);
                    proof {
                        assert(out@ =~= read_seq(self@, addr, i + 1));
                    }
                },
                None => {
                    return Err(Exception::RegisterNotFound);
                },
            }
            i += 1;
        }
        Ok(out)
    }

    /// Writes the words into existing consecutive registers starting at
    /// `addr`; no address is created. The full range is validated before
    /// anything is mutated, so a failed write leaves the store unchanged.
    pub fn write(&mut self, addr: Address, words: &[Word]) -> (r: Result<(), Exception>)
        ensures
            range_present(old(self)@, addr, words@.len() as int) ==> r == Ok::<(), Exception>(())
                && final(self)@ == with_range(old(self)@, addr, words@),
            !range_present(old(self)@, addr, words@.len() as int) ==> r == Err::<(), Exception>(
                Exception::RegisterNotFound,
            ) && final(self)@ == old(self)@,
    {
        let n = words.len();
        if n > usize::from(u16::MAX) + 1 - addr as usize {
            return Err(Exception::RegisterNotFound);
        }
        let mut i: usize = 0;
        while i < n
            invariant
                n == words@.len(),
                addr + n <= u16::MAX + 1,
                i <= n,
                forall|a: Address| addr <= a < addr + i ==> #[trigger] self@.dom().contains(a),
            decreases n - i,
        {
            let a: Address = addr + i as u16;
            if !self.0.contains_key(&a) {
                return Err(Exception::RegisterNotFound);
            }
            i += 1;
        }
        let mut i: usize = 0;
        while i < n
            invariant
                n == words@.len(),
                addr + n <= u16::MAX + 1,
                i <= n,
                self@ == with_range(old(self)@, addr, words@.take(i as int)),
            decreases n - i,
        {
            let a: Address = addr + i as u16;
            self.0.insert(a, words[i]);
            proof {
                assert(self.0@ =~= with_range(old(self)@, addr, words@.take(i + 1)));
            }
            i += 1;
        }
        proof {
            assert(words@.take(n as int) =~= words@);
        }
        Ok(())
    }
}

/// Law: writing a present range and then reading it back returns exactly
/// the written words, and the range stays present.
pub proof fn lemma_write_then_read(m: Map<Address, Word>, addr: Address, words: Seq<Word>)
    requires
        range_present(m, addr, words.len() as int),
    ensures
        range_present(with_range(m, addr, words), addr, words.len() as int),
        read_seq(with_range(m, addr, words), addr, words.len() as int) == words,
{
    assert(read_seq(with_range(m, addr, words), addr, words.len() as int) =~= words);
}

/// Law: a range holding any address that was never created is not
/// present, so a read or write over it fails with `RegisterNotFound`.
pub proof fn lemma_absent_address_fails(m: Map<Address, Word>, addr: Address, cnt: int, a: Address)
    requires
        addr <= a < addr + cnt,
        !m.dom().contains(a),
    ensures
        !range_present(m, addr, cnt),
{
}

/// Keeps a register image in sync with the type's current value, for
/// serving the input-register side of a simulated device.
pub trait InputRegisterModel {
    /// Builds the initial register image from the current value.
    fn new_registers(&self) -> Registers;

    /// Pushes the current value into an existing image, writing only
    /// registers that already exist.
    fn update_registers(&self, registers: &mut Registers) -> Result<(), Exception>;
}

/// Links a register image to the type's value in both directions, for
/// serving the holding-register side of a simulated device.
pub trait HoldingRegisterModel {
    /// Builds the initial register image from the current value.
    fn new_registers(&self) -> Registers;

    /// Pushes the current value into an existing image, writing only
    /// registers that already exist.
    fn update_registers(&self, registers: &mut Registers) -> Result<(), Exception>;

    /// Re-derives the value from the register image after an external
    /// write.
    fn update_self(&mut self, registers: &Registers) -> Result<(), Exception>;
}

/// Encodes a field's value and inserts it at its descriptor's address:
/// one step of building a register image from a model's current value.
pub fn insert_value(registers: &mut Registers, entry: &Entry, value: Value)
    requires
        entry.wf(),
        value.matches_type(entry.ty),
    ensures
        final(registers)@ == with_range(old(registers)@, entry.addr, value.spec_to_be_words()),
{
    proof {
        crate::value::lemma_matching_value_word_size(value, entry.ty);
    }
    let words = value.encode_be();
    registers.insert(entry.addr, words);
}

/// Encodes a field's value and writes it into its descriptor's existing
/// registers: one step of pushing a model's current value into an image.
pub fn write_value(registers: &mut Registers, entry: &Entry, value: Value) -> (r: Result<
    (),
    Exception,
>)
    requires
        value.matches_type(entry.ty),
    ensures
        range_present(old(registers)@, entry.addr, entry.ty.spec_word_size() as int) ==> r
            == Ok::<(), Exception>(()) && final(registers)@ == with_range(
            old(registers)@,
            entry.addr,
            value.spec_to_be_words(),
        ),
        !range_present(old(registers)@, entry.addr, entry.ty.spec_word_size() as int) ==> r
            == Err::<(), Exception>(Exception::RegisterNotFound) && final(registers)@ == old(
            registers,
        )@,
{
    proof {
        crate::value::lemma_matching_value_word_size(value, entry.ty);
    }
    let words = value.encode_be();
    registers.write(entry.addr, words.as_slice())
}

/// Reads a field's word range and decodes it as the descriptor's data
/// type: one step of re-deriving a model's value from an image.
pub fn read_value(registers: &Registers, entry: &Entry) -> (r: Result<Value, Exception>)
    ensures
        range_present(registers@, entry.addr, entry.ty.spec_word_size() as int) ==> ({
            &&& r matches Ok(v)
            &&& v.matches_type(entry.ty)
            &&& v.spec_to_be_words() == read_seq(
                registers@,
                entry.addr,
                entry.ty.spec_word_size() as int,
            )
        }),
        !range_present(registers@, entry.addr, entry.ty.spec_word_size() as int) ==> r
            == Err::<Value, Exception>(Exception::RegisterNotFound),
{
    let cnt: Quantity = entry.ty.word_size();
    match registers.read(entry.addr, cnt) {
        Ok(words) => match Value::decode_be(entry.ty, words.as_slice()) {
            Ok(v) => Ok(v),
            Err(_) => Err(Exception::WordCountMismatch),
        },
        Err(e) => Err(e),
    }
}

/// The register image holding each entry's encoded value at its address,
/// laid down in mapping order over an empty store.
pub open spec fn stored_image(entries: Seq<Entry>, values: Seq<Value>) -> Map<Address, Word>
    decreases entries.len(),
{
    if entries.len() == 0 {
        Map::empty()
    } else {
        with_range(
            stored_image(entries.drop_last(), values.drop_last()),
            entries.last().addr,
            values.last().spec_to_be_words(),
        )
    }
}

/// Builds the full register image of a mapping: every entry's value,
/// encoded big-endian, inserted at the entry's address. This is the
/// image a model's current state projects into a fresh store.
pub fn build_registers(mapping: &Mapping, values: &Vec<Value>) -> (r: Registers)
    requires
        mapping.wf(),
        values@.len() == mapping.0@.len(),
        forall|i: int|
            0 <= i < values@.len() ==> (#[trigger] values@[i]).matches_type(mapping.0@[i].ty),
    ensures
        r@ == stored_image(mapping.0@, values@),
{
    let mut registers = Registers::default();
    let n = mapping.0.len();
    let mut i: usize = 0;
    while i < n
        invariant
            n == mapping.0@.len(),
            n == values@.len(),
            mapping.wf(),
            forall|k: int|
                0 <= k < values@.len() ==> (#[trigger] values@[k]).matches_type(mapping.0@[k].ty),
            i <= n,
            registers@ == stored_image(mapping.0@.take(i as int), values@.take(i as int)),
        decreases n - i,
    {
        proof {
            assert(mapping.0@[i as int].wf());
        }
        insert_value(&mut registers, &mapping.0[i], values[i].clone());
        proof {
            assert(mapping.0@.take(i + 1).drop_last() =~= mapping.0@.take(i as int));
            assert(values@.take(i + 1).drop_last() =~= values@.take(i as int));
            assert(mapping.0@.take(i + 1).last() == mapping.0@[i as int]);
            assert(values@.take(i + 1).last() == values@[i as int]);
        }
        i += 1;
    }
    proof {
        assert(mapping.0@.take(n as int) =~= mapping.0@);
        assert(values@.take(n as int) =~= values@);
    }
    registers
}

/// Law: in the image a mapping's values build, every entry's range is
/// present and reads back exactly that entry's words — later fields
/// never clobber earlier ones, because the mapping's word ranges are
/// disjoint.
pub proof fn lemma_stored_image_reads_back(entries: Seq<Entry>, values: Seq<Value>)
    requires
        crate::mapping::entries_sorted_disjoint(entries),
        crate::mapping::entries_wf(entries),
        values.len() == entries.len(),
        forall|i: int| 0 <= i < entries.len() ==> (#[trigger] values[i]).matches_type(
            entries[i].ty,
        ),
    ensures
        forall|i: int|
            0 <= i < entries.len() ==> {
                let img = stored_image(entries, values);
                let e = #[trigger] entries[i];
                &&& range_present(img, e.addr, e.ty.spec_word_size() as int)
                &&& read_seq(img, e.addr, e.ty.spec_word_size() as int)
                    == values[i].spec_to_be_words()
            },
    decreases entries.len(),
{
    if entries.len() > 0 {
        let n = entries.len() as int;
        let head_e = entries.drop_last();
        let head_v = values.drop_last();
        let last_e = entries.last();
        let last_v = values.last();
        let img0 = stored_image(head_e, head_v);
        let img = stored_image(entries, values);
        assert(entries[n - 1].wf());
        crate::value::lemma_matching_value_word_size(last_v, last_e.ty);
        lemma_stored_image_reads_back(head_e, head_v);
        // The last entry's own range: laid down by the final step.
        assert(read_seq(img, last_e.addr, last_e.ty.spec_word_size() as int)
            =~= last_v.spec_to_be_words());
        // Earlier entries end at or before the last entry's address, so
        // the final step touches none of their registers.
        assert forall|i: int| 0 <= i < n - 1 implies {
            let e = #[trigger] entries[i];
            &&& range_present(img, e.addr, e.ty.spec_word_size() as int)
            &&& read_seq(img, e.addr, e.ty.spec_word_size() as int) == values[i].spec_to_be_words()
        } by {
            let e = entries[i];
            assert(head_e[i] == e);
            assert(head_v[i] == values[i]);
            assert(range_present(img0, e.addr, e.ty.spec_word_size() as int));
            assert(read_seq(img0, e.addr, e.ty.spec_word_size() as int)
                == values[i].spec_to_be_words());
            if i < n - 2 {
                crate::mapping::lemma_end_monotone(entries, i, n - 2);
            }
            assert(entries[n - 2].spec_end() <= entries[n - 1].addr);
            assert(e.spec_end() <= last_e.addr);
            crate::value::lemma_matching_value_word_size(values[i], e.ty);
            assert(read_seq(img, e.addr, e.ty.spec_word_size() as int) =~= read_seq(
                img0,
                e.addr,
                e.ty.spec_word_size() as int,
            ));
        }
    }
}

/// Law: pushing a field's value into its present register range and
/// reading the range back yields words that pin the value: any value of
/// the descriptor's type read back from them is the value written. With
/// the scale factor applied outside the store, a field pushed by
/// `update_registers` and re-derived by `update_self` comes back
/// unchanged.
pub proof fn lemma_field_round_trip(m: Map<Address, Word>, entry: Entry, value: Value)
    requires
        value.matches_type(entry.ty),
        range_present(m, entry.addr, entry.ty.spec_word_size() as int),
    ensures
        ({
            let m2 = with_range(m, entry.addr, value.spec_to_be_words());
            &&& range_present(m2, entry.addr, entry.ty.spec_word_size() as int)
            &&& read_seq(m2, entry.addr, entry.ty.spec_word_size() as int)
                == value.spec_to_be_words()
            &&& forall|v2: Value|
                v2.matches_type(entry.ty) && v2.spec_to_be_words() == read_seq(
                    m2,
                    entry.addr,
                    entry.ty.spec_word_size() as int,
                ) ==> value_eq(value, v2)
        }),
{
    crate::value::lemma_matching_value_word_size(value, entry.ty);
    lemma_write_then_read(m, entry.addr, value.spec_to_be_words());
    let m2 = with_range(m, entry.addr, value.spec_to_be_words());
    assert forall|v2: Value|
        v2.matches_type(entry.ty) && v2.spec_to_be_words() == read_seq(
            m2,
            entry.addr,
            entry.ty.spec_word_size() as int,
        ) implies value_eq(value, v2) by {
        crate::value::lemma_value_round_trip(entry.ty, value, v2);
    }
}

/// One inbound protocol request: the four register-access operations the
/// engine serves, and a marker for every other request kind.
#[derive(Debug, PartialEq, Eq)]
pub enum Request {
    ReadInputRegisters(Address, Quantity),
    ReadHoldingRegisters(Address, Quantity),
    WriteMultipleRegisters(Address, Vec<Word>),
    WriteSingleRegister(Address, Word),
    /// Any request kind outside the four register operations.
    Unsupported,
}

/// The acknowledgement returned for a served request.
#[derive(Debug, PartialEq, Eq)]
pub enum Response {
    ReadInputRegisters(Vec<Word>),
    ReadHoldingRegisters(Vec<Word>),
    /// Echo of the written start address and register count.
    WriteMultipleRegisters(Address, Quantity),
    /// Echo of the written address and value.
    WriteSingleRegister(Address, Word),
}

/// The holding store after a request was dispatched: a write request
/// whose full range is present lays its words down; everything else
/// leaves the store as it was.
pub open spec fn holding_after(holding: Map<Address, Word>, req: Request) -> Map<Address, Word> {
    match req {
        Request::WriteMultipleRegisters(a, vs) => if range_present(holding, a, vs@.len() as int) {
            with_range(holding, a, vs@)
        } else {
            holding
        },
        Request::WriteSingleRegister(a, v) => if range_present(holding, a, 1) {
            with_range(holding, a, seq![v])
        } else {
            holding
        },
        _ => holding,
    }
}

/// The error the dispatcher itself raises for a request, if any: an
/// unsupported kind is refused, a read or write over an absent range is
/// an address error, and anything else passes.
pub open spec fn dispatch_failure(
    input: Map<Address, Word>,
    holding: Map<Address, Word>,
    req: Request,
) -> Option<Exception> {
    match req {
        Request::ReadInputRegisters(a, c) => if range_present(input, a, c as int) {
            None
        } else {
            Some(Exception::RegisterNotFound)
        },
        Request::ReadHoldingRegisters(a, c) => if range_present(holding, a, c as int) {
            None
        } else {
            Some(Exception::RegisterNotFound)
        },
        Request::WriteMultipleRegisters(a, vs) => if range_present(holding, a, vs@.len() as int) {
            None
        } else {
            Some(Exception::RegisterNotFound)
        },
        Request::WriteSingleRegister(a, _) => if range_present(holding, a, 1) {
            None
        } else {
            Some(Exception::RegisterNotFound)
        },
        Request::Unsupported => Some(Exception::UnsupportedFunction),
    }
}

/// The response owed to a request served without error: read responses
/// carry exactly the stored words, write responses echo address and
/// count or value.
pub open spec fn response_matches(
    input: Map<Address, Word>,
    holding: Map<Address, Word>,
    req: Request,
    resp: Response,
) -> bool {
    match (req, resp) {
        (Request::ReadInputRegisters(a, c), Response::ReadInputRegisters(v)) => v@ == read_seq(
            input,
            a,
            c as int,
        ),
        (Request::ReadHoldingRegisters(a, c), Response::ReadHoldingRegisters(v)) => v@ == read_seq(
            holding,
            a,
            c as int,
        ),
        (
            Request::WriteMultipleRegisters(a, vs),
            Response::WriteMultipleRegisters(ra, rc),
        ) => ra == a && rc == vs@.len() as u16,
        (Request::WriteSingleRegister(a, v), Response::WriteSingleRegister(ra, rv)) => ra == a && rv
            == v,
        _ => false,
    }
}

/// Modbus data store of a simulated device: one register image per
/// direction, each created once from its bound model and mutated in
/// place thereafter.
#[derive(Debug)]
pub struct DataStore {
    /// Written only by the periodic refresh after initialization.
    pub input_registers: Registers,
    /// Written only by inbound write requests after initialization.
    pub holding_registers: Registers,
}

impl DataStore {
    /// Builds both register images from the bound models' current values.
    pub fn new<I: InputRegisterModel, H: HoldingRegisterModel>(
        input_model: &I,
        holding_model: &H,
    ) -> DataStore {
        DataStore {
            input_registers: input_model.new_registers(),
            holding_registers: holding_model.new_registers(),
        }
    }

    /// Serves one request to completion. Reads touch neither store nor
    /// model. A write whose full range is present lays its words into the
    /// holding store and re-derives the model from it; a write over an
    /// absent range changes nothing. An unsupported request is refused
    /// and changes nothing, leaving the device servable.
    pub fn service_call<H: HoldingRegisterModel>(
        &mut self,
        holding_register_model: &mut H,
        req: Request,
    ) -> (r: Result<Response, Exception>)
        ensures
            final(self).input_registers@ == old(self).input_registers@,
            final(self).holding_registers@ == holding_after(old(self).holding_registers@, req),
            match dispatch_failure(
                old(self).input_registers@,
                old(self).holding_registers@,
                req,
            ) {
                Some(e) => r == Err::<Response, Exception>(e) && *final(holding_register_model)
                    == *old(holding_register_model),
                None => r matches Ok(resp) ==> response_matches(
                    old(self).input_registers@,
                    old(self).holding_registers@,
                    req,
                    resp,
                ),
            },
            req is ReadInputRegisters || req is ReadHoldingRegisters ==> *final(
                holding_register_model
            ) == *old(holding_register_model),
            (req is ReadInputRegisters || req is ReadHoldingRegisters) && dispatch_failure(
                old(self).input_registers@,
                old(self).holding_registers@,
                req,
            ) is None ==> r is Ok,
    {
        match req {
            Request::ReadInputRegisters(addr, cnt) => match self.input_registers.read(addr, cnt) {
                Ok(values) => Ok(Response::ReadInputRegisters(values)),
                Err(err) => Err(err),
            },
            Request::ReadHoldingRegisters(addr, cnt) => match self.holding_registers.read(
                addr,
                cnt,
            ) {
                Ok(values) => Ok(Response::ReadHoldingRegisters(values)),
                Err(err) => Err(err),
            },
            Request::WriteMultipleRegisters(addr, values) => match self.holding_registers.write(
                addr,
                values.as_slice(),
            ) {
                Ok(_) => match holding_register_model.update_self(&self.holding_registers) {
                    Ok(_) => Ok(
                        Response::WriteMultipleRegisters(
                            addr,
                            #[verifier::truncate] (values.len() as u16),
                        ),
                    ),
                    Err(err) => Err(err),
                },
                Err(err) => Err(err),
            },
            Request::WriteSingleRegister(addr, value) => {
                let words: Vec<Word> = vec![value];
                proof {
                    assert(words@ =~= seq![value]);
                }
                match self.holding_registers.write(addr, words.as_slice()) {
                    Ok(_) => match holding_register_model.update_self(&self.holding_registers) {
                        Ok(_) => Ok(Response::WriteSingleRegister(addr, value)),
                        Err(err) => Err(err),
                    },
                    Err(err) => Err(err),
                }
            },
            Request::Unsupported => Err(Exception::UnsupportedFunction),
        }
    }
}

/// Law: an unsupported request is refused with `UnsupportedFunction` and
/// leaves both stores as they were, so a read that was servable before
/// it is still servable, unchanged, after it.
pub proof fn lemma_unsupported_then_supported(
    input: Map<Address, Word>,
    holding: Map<Address, Word>,
    addr: Address,
    cnt: Quantity,
)
    requires
        range_present(input, addr, cnt as int),
    ensures
        dispatch_failure(input, holding, Request::Unsupported) == Some(
            Exception::UnsupportedFunction,
        ),
        holding_after(holding, Request::Unsupported) == holding,
        dispatch_failure(
            input,
            holding_after(holding, Request::Unsupported),
            Request::ReadInputRegisters(addr, cnt),
        ) is None,
{
}

/// A simulated Modbus device: application state bound to a [`DataStore`],
/// serving requests and refreshing its state periodically.
pub trait Device {
    /// Serves one request to completion against the device's data store.
    fn service_call(&mut self, req: Request) -> Result<Response, Exception>;

    /// Application-specific periodic state refresh; the input model's
    /// `update_registers` pushes its outcome into the input store.
    fn update_state(&mut self);
}

} // verus!
