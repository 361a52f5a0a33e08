use tracecore::error::Error;
use tracecore::events::{
    emit, BpfEventOwner, BpfEvents, BpfRawSection, EventField, EventFieldType, Unmarshaler,
};

/// Produces one field that holds the length of the payload, or leaves a
/// field behind and fails if the payload is empty.
struct Length(&'static str);

impl Unmarshaler for Length {
    fn unmarshal(&self, section: &BpfRawSection, fields: &mut Vec<EventField>) -> Result<(), Error> {
        fields.push(EventField::from_u64(self.0, section.data.len() as u64));
        if section.data.is_empty() {
            return Err(Error::SizeMismatch);
        }
        Ok(())
    }
}

fn section(owner: BpfEventOwner, data: &[u8]) -> BpfRawSection {
    BpfRawSection { owner: owner.tag(), data: data.to_vec() }
}

#[test]
fn owner_tags_are_stable_and_distinct() {
    let owners = [
        BpfEventOwner::Common,
        BpfEventOwner::Kernel,
        BpfEventOwner::Userspace,
        BpfEventOwner::CollectorSkb,
        BpfEventOwner::CollectorOvs,
    ];
    let tags: Vec<u8> = owners.iter().map(|o| o.tag()).collect();
    assert_eq!(tags, vec![1, 2, 3, 4, 5]);
    for owner in owners {
        assert_eq!(BpfEventOwner::from_tag(owner.tag()), Some(owner));
    }
    assert_eq!(BpfEventOwner::from_tag(0), None);
    assert_eq!(BpfEventOwner::from_tag(6), None);
    assert_eq!(BpfEventOwner::from_tag(255), None);
}

#[test]
fn section_without_unmarshaler_is_refused() {
    let mut events: BpfEvents = BpfEvents::new();
    let mut fields = vec![EventField::from_i32("cpu", 3)];
    assert_eq!(
        events.unmarshal(&section(BpfEventOwner::Kernel, b"abc"), &mut fields),
        Err(Error::UnknownOwner)
    );
    assert_eq!(fields, vec![EventField::from_i32("cpu", 3)]);

    assert_eq!(events.register_unmarshaler(BpfEventOwner::Kernel, Box::new(Length("len"))), Ok(()));
    assert_eq!(
        events.unmarshal(&section(BpfEventOwner::Common, b"abc"), &mut fields),
        Err(Error::UnknownOwner)
    );
    let stray = BpfRawSection { owner: 200, data: vec![1] };
    assert_eq!(events.unmarshal(&stray, &mut fields), Err(Error::UnknownOwner));
    assert_eq!(fields, vec![EventField::from_i32("cpu", 3)]);
}

#[test]
fn section_goes_to_the_unmarshaler_of_its_owner() {
    let mut events: BpfEvents = BpfEvents::new();
    assert_eq!(events.register_unmarshaler(BpfEventOwner::Kernel, Box::new(Length("kernel"))), Ok(()));
    assert_eq!(events.register_unmarshaler(BpfEventOwner::Common, Box::new(Length("common"))), Ok(()));
    let mut fields = Vec::new();
    assert_eq!(events.unmarshal(&section(BpfEventOwner::Common, b"ab"), &mut fields), Ok(()));
    assert_eq!(events.unmarshal(&section(BpfEventOwner::Kernel, b"abcd"), &mut fields), Ok(()));
    assert_eq!(
        fields,
        vec![EventField::from_u64("common", 2), EventField::from_u64("kernel", 4)]
    );
}

#[test]
fn owner_has_one_unmarshaler() {
    let mut events: BpfEvents = BpfEvents::new();
    assert_eq!(events.register_unmarshaler(BpfEventOwner::Kernel, Box::new(Length("first"))), Ok(()));
    assert_eq!(
        events.register_unmarshaler(BpfEventOwner::Kernel, Box::new(Length("second"))),
        Err(Error::NameConflict)
    );
    let mut fields = Vec::new();
    assert_eq!(events.unmarshal(&section(BpfEventOwner::Kernel, b"a"), &mut fields), Ok(()));
    assert_eq!(fields, vec![EventField::from_u64("first", 1)]);
}

#[test]
fn failed_section_leaves_no_field() {
    let mut events: BpfEvents = BpfEvents::new();
    assert_eq!(events.register_unmarshaler(BpfEventOwner::Kernel, Box::new(Length("len"))), Ok(()));
    let mut fields = vec![EventField::from_i32("cpu", 3)];
    assert_eq!(
        events.unmarshal(&section(BpfEventOwner::Kernel, b""), &mut fields),
        Err(Error::SizeMismatch)
    );
    assert_eq!(fields, vec![EventField::from_i32("cpu", 3)]);
    // The next section is unmarshaled as if nothing had happened.
    assert_eq!(events.unmarshal(&section(BpfEventOwner::Kernel, b"abc"), &mut fields), Ok(()));
    assert_eq!(fields, vec![EventField::from_i32("cpu", 3), EventField::from_u64("len", 3)]);
}

#[test]
fn fields_are_made_of_a_name_and_a_value() {
    assert_eq!(
        EventField::from_i32("pid", -4),
        EventField { name: "pid".to_string(), value: EventFieldType::I32(-4) }
    );
    assert_eq!(
        EventField::from_u64("ip", u64::MAX),
        EventField { name: "ip".to_string(), value: EventFieldType::U64(u64::MAX) }
    );
    assert_eq!(
        EventField::from_string("path", "/bin/true".to_string()),
        EventField { name: "path".to_string(), value: EventFieldType::Str("/bin/true".to_string()) }
    );
}

#[test]
fn emit_appends_on_success_only() {
    let mut fields = vec![EventField::from_i32("cpu", 3)];
    let produced = vec![EventField::from_i32("pid", 1), EventField::from_i32("tid", 2)];
    assert_eq!(emit(&mut fields, produced, Err(Error::NotFound)), Err(Error::NotFound));
    assert_eq!(fields.len(), 1);
    let produced = vec![EventField::from_i32("pid", 1), EventField::from_i32("tid", 2)];
    assert_eq!(emit(&mut fields, produced, Ok(())), Ok(()));
    assert_eq!(
        fields,
        vec![
            EventField::from_i32("cpu", 3),
            EventField::from_i32("pid", 1),
            EventField::from_i32("tid", 2)
        ]
    );
}

/// Fails unless it is handed an empty list; writes down the owner it was
/// registered for.
struct Fresh(u64);

impl Unmarshaler for Fresh {
    fn unmarshal(&self, section: &BpfRawSection, fields: &mut Vec<EventField>) -> Result<(), Error> {
        if !fields.is_empty() {
            return Err(Error::UnderlyingFailure);
        }
        fields.push(EventField::from_u64("owner", self.0));
        fields.push(EventField::from_u64("tag", section.owner as u64));
        Ok(())
    }
}

#[test]
fn unmarshaler_of_the_owner_fills_an_empty_list() {
    let mut events: BpfEvents = BpfEvents::new();
    assert_eq!(events.register_unmarshaler(BpfEventOwner::Kernel, Box::new(Fresh(2))), Ok(()));
    assert_eq!(events.register_unmarshaler(BpfEventOwner::CollectorOvs, Box::new(Fresh(5))), Ok(()));
    let mut fields = vec![EventField::from_i32("cpu", 3)];
    assert_eq!(events.unmarshal(&section(BpfEventOwner::CollectorOvs, b"x"), &mut fields), Ok(()));
    assert_eq!(events.unmarshal(&section(BpfEventOwner::Kernel, b"x"), &mut fields), Ok(()));
    assert_eq!(
        fields,
        vec![
            EventField::from_i32("cpu", 3),
            EventField::from_u64("owner", 5),
            EventField::from_u64("tag", 5),
            EventField::from_u64("owner", 2),
            EventField::from_u64("tag", 2),
        ]
    );
}

/// Returns the failure it was made with.
struct Failing(Error);

impl Unmarshaler for Failing {
    fn unmarshal(&self, _: &BpfRawSection, _: &mut Vec<EventField>) -> Result<(), Error> {
        Err(self.0)
    }
}

#[test]
fn failure_of_the_unmarshaler_is_handed_on() {
    for failure in [Error::SizeMismatch, Error::NotFound, Error::UnknownOwner] {
        let mut events: BpfEvents = BpfEvents::new();
        assert_eq!(
            events.register_unmarshaler(BpfEventOwner::Kernel, Box::new(Failing(failure))),
            Ok(())
        );
        let mut fields = Vec::new();
        assert_eq!(
            events.unmarshal(&section(BpfEventOwner::Kernel, b"x"), &mut fields),
            Err(failure)
        );
        assert!(fields.is_empty());
    }
}
