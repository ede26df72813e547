use modbus_mapping::entry::{DataType, Entry, WordOrder};
use modbus_mapping::error::Exception;
use modbus_mapping::mapping::Mapping;
use modbus_mapping::simulator::{
    build_registers, insert_value, read_value, write_value, DataStore, Device,
    HoldingRegisterModel, InputRegisterModel, Registers, Request, Response,
};
use modbus_mapping::value::Value;

#[test]
fn insert_then_read_returns_the_words() {
    let mut r = Registers::default();
    r.insert(100, vec![1, 2, 3]);
    assert_eq!(r.read(100, 3).unwrap(), vec![1, 2, 3]);
    assert_eq!(r.read(101, 2).unwrap(), vec![2, 3]);
    assert_eq!(r.read(100, 0).unwrap(), vec![]);
}

#[test]
fn write_then_read_returns_the_words() {
    let mut r = Registers::default();
    r.insert(10, vec![0, 0, 0, 0]);
    r.write(10, &[7, 8, 9, 10]).unwrap();
    assert_eq!(r.read(10, 4).unwrap(), vec![7, 8, 9, 10]);
    r.write(11, &[42]).unwrap();
    assert_eq!(r.read(10, 4).unwrap(), vec![7, 42, 9, 10]);
}

#[test]
fn absent_addresses_fail_with_register_not_found() {
    let mut r = Registers::default();
    r.insert(5, vec![1, 2]);
    assert_eq!(r.read(7, 1), Err(Exception::RegisterNotFound));
    assert_eq!(r.read(4, 2), Err(Exception::RegisterNotFound));
    assert_eq!(r.read(6, 2), Err(Exception::RegisterNotFound));
    assert_eq!(r.write(7, &[9]), Err(Exception::RegisterNotFound));
    assert_eq!(r.write(0, &[9]), Err(Exception::RegisterNotFound));
}

#[test]
fn failed_write_leaves_the_store_unchanged() {
    let mut r = Registers::default();
    r.insert(5, vec![1, 2]);
    // Addresses 5 and 6 exist, 7 does not: the write is refused whole.
    assert_eq!(r.write(5, &[10, 20, 30]), Err(Exception::RegisterNotFound));
    assert_eq!(r.read(5, 2).unwrap(), vec![1, 2]);
}

#[test]
fn write_never_creates_addresses() {
    let mut r = Registers::default();
    assert_eq!(r.write(0, &[1]), Err(Exception::RegisterNotFound));
    assert_eq!(r.read(0, 1), Err(Exception::RegisterNotFound));
}

#[test]
fn shrink_keeps_every_entry() {
    let mut r = Registers::default();
    r.insert(0, vec![5, 6, 7]);
    r.shrink();
    assert_eq!(r.read(0, 3).unwrap(), vec![5, 6, 7]);
}

fn temperature_entry() -> Entry {
    Entry::new(
        "temperature".to_owned(),
        "f64".to_owned(),
        0,
        DataType::I16,
        WordOrder::BigEndian,
        0.5f64.to_bits(),
        "C".to_owned(),
    )
    .unwrap()
}

fn voltage_entry() -> Entry {
    Entry::new(
        "voltage".to_owned(),
        "f64".to_owned(),
        10,
        DataType::U32,
        WordOrder::BigEndian,
        0.5f64.to_bits(),
        "V".to_owned(),
    )
    .unwrap()
}

/// Input-side model: one scaled voltage reading.
#[derive(Debug, Clone, Default)]
struct Sensors {
    voltage: f64,
}

impl InputRegisterModel for Sensors {
    fn new_registers(&self) -> Registers {
        let mut registers = Registers::default();
        let entry = voltage_entry();
        let scale = f64::from_bits(entry.x);
        insert_value(
            &mut registers,
            &entry,
            Value::U32((self.voltage / scale) as u32),
        );
        registers
    }

    fn update_registers(&self, registers: &mut Registers) -> Result<(), Exception> {
        let entry = voltage_entry();
        let scale = f64::from_bits(entry.x);
        write_value(registers, &entry, Value::U32((self.voltage / scale) as u32))
    }
}

/// Holding-side model: one scaled temperature setpoint.
#[derive(Debug, Clone, Default)]
struct Setpoints {
    temperature: f64,
}

impl HoldingRegisterModel for Setpoints {
    fn new_registers(&self) -> Registers {
        let mut registers = Registers::default();
        let entry = temperature_entry();
        let scale = f64::from_bits(entry.x);
        insert_value(
            &mut registers,
            &entry,
            Value::I16((self.temperature / scale) as i16),
        );
        registers
    }

    fn update_registers(&self, registers: &mut Registers) -> Result<(), Exception> {
        let entry = temperature_entry();
        let scale = f64::from_bits(entry.x);
        write_value(
            registers,
            &entry,
            Value::I16((self.temperature / scale) as i16),
        )
    }

    fn update_self(&mut self, registers: &Registers) -> Result<(), Exception> {
        let entry = temperature_entry();
        let scale = f64::from_bits(entry.x);
        match read_value(registers, &entry)? {
            Value::I16(raw) => {
                self.temperature = raw as f64 * scale;
                Ok(())
            }
            _ => Err(Exception::WordCountMismatch),
        }
    }
}

#[test]
fn scale_round_trip_restores_the_value() {
    let written = Setpoints { temperature: -23.5 };
    let mut registers = written.new_registers();
    written.update_registers(&mut registers).unwrap();
    let mut read_back = Setpoints::default();
    read_back.update_self(&registers).unwrap();
    assert!((read_back.temperature - written.temperature).abs() < 1e-9);
}

#[test]
fn data_store_serves_reads_from_both_directions() {
    let sensors = Sensors { voltage: 241.0 };
    let setpoints = Setpoints { temperature: 21.5 };
    let mut store = DataStore::new(&sensors, &setpoints);
    let mut model = setpoints;

    // voltage 241.0 at scale 0.5 stores 482 over two words at address 10.
    let r = store
        .service_call(&mut model, Request::ReadInputRegisters(10, 2))
        .unwrap();
    assert_eq!(r, Response::ReadInputRegisters(vec![0, 482]));

    // temperature 21.5 at scale 0.5 stores 43 at address 0.
    let r = store
        .service_call(&mut model, Request::ReadHoldingRegisters(0, 1))
        .unwrap();
    assert_eq!(r, Response::ReadHoldingRegisters(vec![43]));
}

#[test]
fn write_requests_update_store_and_model() {
    let sensors = Sensors { voltage: 241.0 };
    let setpoints = Setpoints { temperature: 21.5 };
    let mut store = DataStore::new(&sensors, &setpoints);
    let mut model = setpoints;

    // 50 raw words at scale 0.5 is a setpoint of 25.0.
    let r = store
        .service_call(&mut model, Request::WriteSingleRegister(0, 50))
        .unwrap();
    assert_eq!(r, Response::WriteSingleRegister(0, 50));
    assert!((model.temperature - 25.0).abs() < 1e-9);

    let r = store
        .service_call(&mut model, Request::WriteMultipleRegisters(0, vec![60]))
        .unwrap();
    assert_eq!(r, Response::WriteMultipleRegisters(0, 1));
    assert!((model.temperature - 30.0).abs() < 1e-9);
}

#[test]
fn write_to_absent_range_is_an_address_error() {
    let sensors = Sensors::default();
    let setpoints = Setpoints::default();
    let mut store = DataStore::new(&sensors, &setpoints);
    let mut model = setpoints;

    let r = store.service_call(&mut model, Request::WriteSingleRegister(5, 1));
    assert_eq!(r, Err(Exception::RegisterNotFound));
    let r = store.service_call(&mut model, Request::WriteMultipleRegisters(0, vec![1, 2]));
    assert_eq!(r, Err(Exception::RegisterNotFound));
    // The refused writes left the single holding register unchanged.
    let r = store
        .service_call(&mut model, Request::ReadHoldingRegisters(0, 1))
        .unwrap();
    assert_eq!(r, Response::ReadHoldingRegisters(vec![0]));
}

#[test]
fn unsupported_request_is_refused_and_device_stays_servable() {
    let sensors = Sensors { voltage: 241.0 };
    let setpoints = Setpoints { temperature: 21.5 };
    let mut store = DataStore::new(&sensors, &setpoints);
    let mut model = setpoints;

    let r = store.service_call(&mut model, Request::Unsupported);
    assert_eq!(r, Err(Exception::UnsupportedFunction));

    // The same device still serves a supported request, with its state
    // untouched by the rejected one.
    let r = store
        .service_call(&mut model, Request::ReadHoldingRegisters(0, 1))
        .unwrap();
    assert_eq!(r, Response::ReadHoldingRegisters(vec![43]));
    let r = store
        .service_call(&mut model, Request::WriteSingleRegister(0, 44))
        .unwrap();
    assert_eq!(r, Response::WriteSingleRegister(0, 44));
}

#[test]
fn periodic_refresh_updates_the_input_store() {
    let mut sensors = Sensors { voltage: 241.0 };
    let setpoints = Setpoints::default();
    let mut store = DataStore::new(&sensors, &setpoints);
    let mut model = setpoints;

    sensors.voltage = 300.0;
    sensors.update_registers(&mut store.input_registers).unwrap();
    let r = store
        .service_call(&mut model, Request::ReadInputRegisters(10, 2))
        .unwrap();
    assert_eq!(r, Response::ReadInputRegisters(vec![0, 600]));
}

/// A complete simulated device: sensors on the input side, setpoints on
/// the holding side, kept in sync with the data store as the engine's
/// contracts prescribe.
struct PlantDevice {
    sensors: Sensors,
    setpoints: Setpoints,
    store: DataStore,
}

impl PlantDevice {
    fn new() -> Self {
        let sensors = Sensors { voltage: 241.0 };
        let setpoints = Setpoints { temperature: 21.5 };
        let store = DataStore::new(&sensors, &setpoints);
        PlantDevice {
            sensors,
            setpoints,
            store,
        }
    }
}

impl Device for PlantDevice {
    fn service_call(
        &mut self,
        req: Request,
    ) -> Result<Response, modbus_mapping::error::Exception> {
        self.store.service_call(&mut self.setpoints, req)
    }

    fn update_state(&mut self) {
        self.sensors.voltage += 1.0;
        let _ = self.sensors.update_registers(&mut self.store.input_registers);
    }
}

#[test]
fn device_serves_requests_and_refreshes_state() {
    let mut device = PlantDevice::new();

    let r = device
        .service_call(Request::ReadInputRegisters(10, 2))
        .unwrap();
    assert_eq!(r, Response::ReadInputRegisters(vec![0, 482]));

    // Two refresh ticks raise the voltage by two volts: four raw steps at
    // scale 0.5.
    device.update_state();
    device.update_state();
    let r = device
        .service_call(Request::ReadInputRegisters(10, 2))
        .unwrap();
    assert_eq!(r, Response::ReadInputRegisters(vec![0, 486]));

    // A write through the device resynchronizes the bound setpoints.
    let r = device
        .service_call(Request::WriteSingleRegister(0, 48))
        .unwrap();
    assert_eq!(r, Response::WriteSingleRegister(0, 48));
    assert!((device.setpoints.temperature - 24.0).abs() < 1e-9);
}

#[test]
fn build_registers_stores_every_field() {
    let make = |addr: u16, ty: DataType, name: &str| {
        Entry::new(
            name.to_owned(),
            name.to_owned(),
            addr,
            ty,
            WordOrder::BigEndian,
            1.0f64.to_bits(),
            String::new(),
        )
        .unwrap()
    };
    let mapping = Mapping::new(vec![
        make(0, DataType::U16, "a"),
        make(1, DataType::I32, "b"),
        make(5, DataType::Raw(2), "c"),
    ])
    .unwrap();
    let values = vec![
        Value::U16(41),
        Value::I32(-99),
        Value::Raw(vec![0x0102, 0x0304]),
    ];
    let registers = build_registers(&mapping, &values);
    assert_eq!(read_value(&registers, &mapping.0[0]).unwrap(), Value::U16(41));
    assert_eq!(read_value(&registers, &mapping.0[1]).unwrap(), Value::I32(-99));
    assert_eq!(
        read_value(&registers, &mapping.0[2]).unwrap(),
        Value::Raw(vec![0x0102, 0x0304])
    );
    // The unmapped register between the fields was never created.
    assert_eq!(registers.read(3, 1), Err(Exception::RegisterNotFound));
}

#[test]
fn read_value_decodes_what_write_value_stored() {
    let entry = voltage_entry();
    let mut registers = Registers::default();
    insert_value(&mut registers, &entry, Value::U32(0));
    write_value(&mut registers, &entry, Value::U32(0xCAFEBABE)).unwrap();
    assert_eq!(
        read_value(&registers, &entry).unwrap(),
        Value::U32(0xCAFEBABE)
    );
}
