use tracecore::error::Error;
use tracecore::events::{
    BpfEventOwner, BpfEvents, BpfRawSection, EventField, EventFieldType, Unmarshaler,
};
use tracecore::user::{
    register_unmarshaler, ByteOrder, Process, SymbolInfo, SymbolResolver, UsdtInfo, UsdtNote,
    UsdtProbe, UserEvent, UserUnmarshaler, USER_SECTION_SIZE,
};

fn note(provider: &str, name: &str, addr: u64) -> UsdtNote {
    UsdtNote { provider: provider.to_string(), name: name.to_string(), addr }
}

fn process(usdt_info: Option<UsdtInfo>) -> Process {
    Process { pid: 4242, path: "/usr/sbin/ovs-vswitchd".to_string(), usdt_info }
}

fn table() -> UsdtInfo {
    UsdtInfo {
        notes: vec![
            note("main", "poll_block", 0x10),
            note("main", "run_start", 0x20),
            note("dpif", "recv", 0x30),
            note("main", "run_start", 0x40),
        ],
    }
}

#[test]
fn marker_needs_a_table() {
    assert_eq!(UsdtProbe::new(&process(None), "main::run_start"), Err(Error::MissingCapability));
}

#[test]
fn marker_has_to_be_in_the_table() {
    let p = process(Some(table()));
    assert_eq!(UsdtProbe::new(&p, "main::run_stop"), Err(Error::NotFound));
    assert_eq!(UsdtProbe::new(&p, "run_start"), Err(Error::NotFound));
    assert_eq!(UsdtProbe::new(&p, "main:run_start"), Err(Error::NotFound));
    assert_eq!(UsdtProbe::new(&p, ""), Err(Error::NotFound));
    let empty = process(Some(UsdtInfo { notes: Vec::new() }));
    assert_eq!(UsdtProbe::new(&empty, "main::run_start"), Err(Error::NotFound));
}

#[test]
fn marker_is_resolved_to_a_snapshot() {
    let p = process(Some(table()));
    assert_eq!(
        UsdtProbe::new(&p, "main::run_start"),
        Ok(UsdtProbe {
            provider: "main".to_string(),
            name: "run_start".to_string(),
            ksym: 0x20,
            path: "/usr/sbin/ovs-vswitchd".to_string(),
            pid: 4242,
        })
    );
    assert_eq!(UsdtProbe::new(&p, "dpif::recv").unwrap().ksym, 0x30);
}

#[test]
fn marker_name_is_printable() {
    let p = process(Some(table()));
    let probe = UsdtProbe::new(&p, "dpif::recv").unwrap();
    assert_eq!(probe.name(), "usdt:dpif:recv");
    assert_eq!(probe.clone(), probe);
}

#[test]
fn marker_table_lookups() {
    let info = table();
    assert_eq!(info.find("main::run_start"), Some(1));
    assert_eq!(info.find("main::poll_block"), Some(0));
    assert_eq!(info.find("main::nothing"), None);
    assert_eq!(info.get_note("dpif::recv").map(|n| n.addr), Some(0x30));
    assert!(info.get_note("dpif::send").is_none());
    assert!(info.is_usdt("main::run_start"));
    assert!(!info.is_usdt("main"));
    assert!(info.notes[2].is_target(&"dpif::recv".to_string()));
    assert!(!info.notes[2].is_target(&"dpif::rec".to_string()));
}

#[test]
fn process_accessors() {
    let p = process(Some(table()));
    assert_eq!(p.pid(), 4242);
    assert_eq!(p.path(), "/usr/sbin/ovs-vswitchd");
    assert_eq!(p.usdt_info().map(|t| t.notes.len()), Some(4));
    assert!(process(None).usdt_info().is_none());
}

fn native_order() -> ByteOrder {
    if 1u32.to_ne_bytes()[0] == 1 {
        ByteOrder::Little
    } else {
        ByteOrder::Big
    }
}

fn payload(address: u64, pid: u32, tid: u32, subtype: u8) -> Vec<u8> {
    let mut data = Vec::new();
    data.extend_from_slice(&address.to_ne_bytes());
    data.extend_from_slice(&(((tid as u64) << 32) | pid as u64).to_ne_bytes());
    data.push(subtype);
    data
}

#[test]
fn native_order_is_this_machine_s() {
    assert_eq!(ByteOrder::native(), native_order());
    assert_eq!(
        ByteOrder::native(),
        ByteOrder::reading(u64::from_ne_bytes([1, 0, 0, 0, 0, 0, 0, 0]))
    );
}

#[test]
fn reading_of_the_probe_tells_the_orders_apart() {
    assert_eq!(ByteOrder::reading(1), ByteOrder::Little);
    assert_eq!(ByteOrder::reading(0x0100_0000_0000_0000), ByteOrder::Big);
    assert_eq!(ByteOrder::reading(u64::from_le_bytes([1, 0, 0, 0, 0, 0, 0, 0])), ByteOrder::Little);
    assert_eq!(ByteOrder::reading(u64::from_be_bytes([1, 0, 0, 0, 0, 0, 0, 0])), ByteOrder::Big);
    assert_eq!(ByteOrder::Little.read_u64(&[1, 0, 0, 0, 0, 0, 0, 0], 0), 1);
    assert_eq!(ByteOrder::Big.read_u64(&[1, 0, 0, 0, 0, 0, 0, 0], 0), 0x0100_0000_0000_0000);
}

#[test]
fn user_event_is_read_from_seventeen_bytes() {
    let data = payload(0x1000, 100, 7, 1);
    assert_eq!(data.len(), USER_SECTION_SIZE);
    assert_eq!(
        UserEvent::parse(&data, ByteOrder::native()),
        Ok(UserEvent { symbol: 0x1000, pid: 100, tid: 7, event_type: 1 })
    );
}

#[test]
fn user_event_of_another_length_is_refused() {
    let data = payload(0x1000, 100, 7, 1);
    assert_eq!(UserEvent::parse(&data[..16], ByteOrder::native()), Err(Error::SizeMismatch));
    let mut longer = data.clone();
    longer.push(0);
    assert_eq!(UserEvent::parse(&longer, ByteOrder::native()), Err(Error::SizeMismatch));
    assert_eq!(UserEvent::parse(&[], ByteOrder::native()), Err(Error::SizeMismatch));
}

#[test]
fn user_event_in_either_byte_order() {
    let address: u64 = 0x0102_0304_0506_0708;
    let pid_tid: u64 = 0x1122_3344_5566_7788;
    let mut little = Vec::new();
    little.extend_from_slice(&address.to_le_bytes());
    little.extend_from_slice(&pid_tid.to_le_bytes());
    little.push(2);
    let mut big = Vec::new();
    big.extend_from_slice(&address.to_be_bytes());
    big.extend_from_slice(&pid_tid.to_be_bytes());
    big.push(2);
    let expected =
        UserEvent { symbol: address, pid: 0x5566_7788, tid: 0x1122_3344, event_type: 2 };
    assert_eq!(UserEvent::parse(&little, ByteOrder::Little), Ok(expected));
    assert_eq!(UserEvent::parse(&big, ByteOrder::Big), Ok(expected));
    assert_eq!(ByteOrder::Little.read_u64(&little, 8), pid_tid);
    assert_eq!(ByteOrder::Big.read_u64(&big, 0), address);
    assert_eq!(ByteOrder::Big.read_u64(&little, 0), address.swap_bytes());
}

#[test]
fn ids_are_signed_halves() {
    let data = payload(u64::MAX, u32::MAX, 0x8000_0000, 0);
    assert_eq!(
        UserEvent::parse(&data, ByteOrder::native()),
        Ok(UserEvent { symbol: u64::MAX, pid: -1, tid: i32::MIN, event_type: 0 })
    );
    let data = payload(0, 0x7fff_ffff, 0, 255);
    assert_eq!(
        UserEvent::parse(&data, ByteOrder::native()),
        Ok(UserEvent { symbol: 0, pid: i32::MAX, tid: 0, event_type: 255 })
    );
}

struct Fixed;

impl SymbolResolver for Fixed {
    fn resolve(&self, pid: i32, addr: u64) -> Result<SymbolInfo, Error> {
        if pid == 100 {
            Ok(SymbolInfo {
                symbol: format!("sym_{:x}", addr),
                path: "/usr/sbin/ovs-vswitchd".to_string(),
            })
        } else {
            Err(Error::NotFound)
        }
    }
}

fn field_i32(name: &str, value: i32) -> EventField {
    EventField { name: name.to_string(), value: EventFieldType::I32(value) }
}

fn field_u64(name: &str, value: u64) -> EventField {
    EventField { name: name.to_string(), value: EventFieldType::U64(value) }
}

fn field_str(name: &str, value: &str) -> EventField {
    EventField { name: name.to_string(), value: EventFieldType::Str(value.to_string()) }
}

fn expected_fields(label: &str) -> Vec<EventField> {
    vec![
        field_i32("pid", 100),
        field_i32("tid", 7),
        field_str("symbol", "sym_1000"),
        field_u64("ip", 0x1000),
        field_str("path", "/usr/sbin/ovs-vswitchd"),
        field_str("type", label),
    ]
}

#[test]
fn user_section_is_unmarshaled_into_six_fields() {
    let mut events = BpfEvents::new();
    assert_eq!(register_unmarshaler(&mut events, Box::new(Fixed)), Ok(()));
    let section =
        BpfRawSection { owner: BpfEventOwner::Userspace.tag(), data: payload(0x1000, 100, 7, 1) };
    let mut fields = Vec::new();
    assert_eq!(events.unmarshal(&section, &mut fields), Ok(()));
    assert_eq!(fields, expected_fields("usdt"));
}

#[test]
fn user_section_of_another_length_yields_no_field() {
    let mut events = BpfEvents::new();
    assert_eq!(register_unmarshaler(&mut events, Box::new(Fixed)), Ok(()));
    let mut fields = vec![field_i32("cpu", 3)];
    for length in [0usize, 16, 18] {
        let mut data = payload(0x1000, 100, 7, 1);
        data.resize(length, 0);
        let section = BpfRawSection { owner: BpfEventOwner::Userspace.tag(), data };
        assert_eq!(events.unmarshal(&section, &mut fields), Err(Error::SizeMismatch));
        assert_eq!(fields, vec![field_i32("cpu", 3)]);
    }
}

#[test]
fn unknown_subtype_is_labelled_unknown() {
    let unmarshaler = UserUnmarshaler::new(ByteOrder::native(), Fixed);
    for subtype in [0u8, 2, 255] {
        let mut fields = Vec::new();
        let section = BpfRawSection { owner: 3, data: payload(0x1000, 100, 7, subtype) };
        assert_eq!(unmarshaler.unmarshal(&section, &mut fields), Ok(()));
        assert_eq!(fields, expected_fields("unknown"));
    }
}

#[test]
fn unresolved_symbol_fails_the_section_only() {
    let unmarshaler = UserUnmarshaler::new(ByteOrder::native(), Fixed);
    let mut fields = vec![field_i32("cpu", 3)];
    let lost = BpfRawSection { owner: 3, data: payload(0x1000, 101, 7, 1) };
    assert_eq!(unmarshaler.unmarshal(&lost, &mut fields), Err(Error::NotFound));
    assert_eq!(fields, vec![field_i32("cpu", 3)]);
    let found = BpfRawSection { owner: 3, data: payload(0x1000, 100, 7, 1) };
    assert_eq!(unmarshaler.unmarshal(&found, &mut fields), Ok(()));
    let mut expected = vec![field_i32("cpu", 3)];
    expected.extend(expected_fields("usdt"));
    assert_eq!(fields, expected);
}

#[test]
fn event_fields_are_appended_in_order() {
    let event = UserEvent { symbol: 0x1000, pid: 100, tid: 7, event_type: 1 };
    let mut fields = vec![field_i32("cpu", 3)];
    event.push_fields(
        SymbolInfo { symbol: "sym_1000".to_string(), path: "/usr/sbin/ovs-vswitchd".to_string() },
        &mut fields,
    );
    let mut expected = vec![field_i32("cpu", 3)];
    expected.extend(expected_fields("usdt"));
    assert_eq!(fields, expected);

    let mut fields = Vec::new();
    assert_eq!(event.emit(Err(Error::UnderlyingFailure), &mut fields), Err(Error::UnderlyingFailure));
    assert!(fields.is_empty());
    let info = SymbolInfo { symbol: "sym_1000".to_string(), path: "/usr/sbin/ovs-vswitchd".to_string() };
    assert_eq!(event.emit(Ok(info), &mut fields), Ok(()));
    assert_eq!(fields, expected_fields("usdt"));
}

#[test]
fn user_unmarshaler_is_registered_once() {
    let mut events = BpfEvents::new();
    assert!(!events.has_unmarshaler(BpfEventOwner::Userspace));
    assert_eq!(register_unmarshaler(&mut events, Box::new(Fixed)), Ok(()));
    assert!(events.has_unmarshaler(BpfEventOwner::Userspace));
    assert!(!events.has_unmarshaler(BpfEventOwner::Kernel));
    assert_eq!(register_unmarshaler(&mut events, Box::new(Fixed)), Err(Error::NameConflict));
    assert!(events.has_unmarshaler(BpfEventOwner::Userspace));
}
