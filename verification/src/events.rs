//! Event sections and the registry of their unmarshalers.
//!
//! Instrumentation programs emit events as a run of sections. A section names
//! the subsystem that produced it, its owner, and carries a payload whose
//! layout only that owner knows. The registry maps each owner to the
//! unmarshaler that turns such a payload into named, typed fields.

use crate::error::Error;
use std::collections::HashMap;
use vstd::prelude::*;

verus! {

broadcast use vstd::std_specs::hash::group_hash_axioms;

/// The subsystems that produce event sections.
#[derive(Clone, Copy, Debug, PartialEq, Eq, Structural)]
pub enum BpfEventOwner {
    Common,
    Kernel,
    Userspace,
    CollectorSkb,
    CollectorOvs,
}

impl BpfEventOwner {
    /// The tag that stands for the owner in a raw section. Tags are part of
    /// the wire format: a new owner gets a new tag, no tag is ever reused.
    pub open spec fn tag_spec(self) -> u8 {
        match self {
            BpfEventOwner::Common => 1,
            BpfEventOwner::Kernel => 2,
            BpfEventOwner::Userspace => 3,
            BpfEventOwner::CollectorSkb => 4,
            BpfEventOwner::CollectorOvs => 5,
        }
    }

    /// The owner's tag.
    #[verifier::when_used_as_spec(tag_spec)]
    pub fn tag(self) -> (t: u8)
        ensures
            t == self.tag_spec(),
    {
        match self {
            BpfEventOwner::Common => 1,
            BpfEventOwner::Kernel => 2,
            BpfEventOwner::Userspace => 3,
            BpfEventOwner::CollectorSkb => 4,
            BpfEventOwner::CollectorOvs => 5,
        }
    }

    /// The owner a tag stands for, if any.
    pub fn from_tag(tag: u8) -> (r: Option<BpfEventOwner>)
        ensures
            match r {
                Some(owner) => owner.tag_spec() == tag,
                None => forall|owner: BpfEventOwner| owner.tag_spec() != tag,
            },
    {
        if tag == 1 {
            Some(BpfEventOwner::Common)
        } else if tag == 2 {
            Some(BpfEventOwner::Kernel)
        } else if tag == 3 {
            Some(BpfEventOwner::Userspace)
        } else if tag == 4 {
            Some(BpfEventOwner::CollectorSkb)
        } else if tag == 5 {
            Some(BpfEventOwner::CollectorOvs)
        } else {
            None
        }
    }
}

/// Distinct owners have distinct tags.
pub proof fn lemma_owner_tags_distinct(a: BpfEventOwner, b: BpfEventOwner)
    ensures
        a.tag_spec() == b.tag_spec() <==> a == b,
{
}

/// One section of a raw event: the tag of its owner and the payload.
#[derive(Debug, PartialEq, Eq)]
pub struct BpfRawSection {
    pub owner: u8,
    pub data: Vec<u8>,
}

/// The value of a field.
#[derive(Debug, PartialEq, Eq)]
pub enum EventFieldType {
    I32(i32),
    U64(u64),
    Str(String),
}

/// A named, typed piece of an event.
#[derive(Debug, PartialEq, Eq)]
pub struct EventField {
    pub name: String,
    pub value: EventFieldType,
}

/// What a field's value is, with strings as sequences of characters.
pub enum FieldValue {
    I32(i32),
    U64(u64),
    Str(Seq<char>),
}

/// What a field is: its name and its value.
pub struct FieldView {
    pub name: Seq<char>,
    pub value: FieldValue,
}

impl View for EventFieldType {
    type V = FieldValue;

    open spec fn view(&self) -> FieldValue {
        match *self {
            EventFieldType::I32(v) => FieldValue::I32(v),
            EventFieldType::U64(v) => FieldValue::U64(v),
            EventFieldType::Str(s) => FieldValue::Str(s@),
        }
    }
}

impl View for EventField {
    type V = FieldView;

    open spec fn view(&self) -> FieldView {
        FieldView { name: self.name@, value: self.value@ }
    }
}

impl DeepView for EventField {
    type V = FieldView;

    open spec fn deep_view(&self) -> FieldView {
        self@
    }
}

impl EventField {
    /// A field holding a signed 32-bit integer.
    pub fn from_i32(name: &str, value: i32) -> (f: EventField)
        ensures
            f@ == (FieldView { name: name@, value: FieldValue::I32(value) }),
    {
        EventField { name: name.to_owned(), value: EventFieldType::I32(value) }
    }

    /// A field holding an unsigned 64-bit integer.
    pub fn from_u64(name: &str, value: u64) -> (f: EventField)
        ensures
            f@ == (FieldView { name: name@, value: FieldValue::U64(value) }),
    {
        EventField { name: name.to_owned(), value: EventFieldType::U64(value) }
    }

    /// A field holding a string.
    pub fn from_string(name: &str, value: String) -> (f: EventField)
        ensures
            f@ == (FieldView { name: name@, value: FieldValue::Str(value@) }),
    {
        EventField { name: name.to_owned(), value: EventFieldType::Str(value) }
    }
}

/// Turns the payload of one owner's sections into fields.
///
/// An unmarshaler checks that the payload has exactly the length its layout
/// fixes and fails with [`Error::SizeMismatch`] if it has not. It may consult
/// the running system, so nothing is promised here about what it produces:
/// the registry is proved for whatever an unmarshaler does.
pub trait Unmarshaler {
    fn unmarshal(&self, section: &BpfRawSection, fields: &mut Vec<EventField>) -> Result<(), Error>;
}

/// Adds to `fields` what an unmarshaler produced, if it succeeded.
///
/// On success `produced` is appended to `fields`. On failure `fields` is left
/// as it was, whatever the unmarshaler had produced before it failed, and the
/// failure is handed on unchanged.
pub fn emit(fields: &mut Vec<EventField>, produced: Vec<EventField>, outcome: Result<(), Error>) -> (r:
    Result<(), Error>)
    ensures
        r == outcome,
        outcome is Ok ==> final(fields)@ == old(fields)@ + produced@,
        outcome is Err ==> final(fields)@ == old(fields)@,
{
    if outcome.is_ok() {
        let mut produced = produced;
        fields.append(&mut produced);
    }
    outcome
}

/// A boxed unmarshaler is the unmarshaler in the box.
impl<T: Unmarshaler + ?Sized> Unmarshaler for Box<T> {
    /// Unmarshals the section with the unmarshaler in the box. What it
    /// returns and what becomes of `fields` is what that unmarshaler makes
    /// of the same section and the same fields.
    fn unmarshal(&self, section: &BpfRawSection, fields: &mut Vec<EventField>) -> (r: Result<
        (),
        Error,
    >)
        ensures
            exists|given: &mut Vec<EventField>|
                {
                    &&& *given == *old(fields)
                    &&& *final(given) == *final(fields)
                    &&& #[trigger] call_ensures(T::unmarshal, (&**self, section, given), r)
                },
    {
        (**self).unmarshal(section, fields)
    }
}

/// The registry of unmarshalers, at most one for each owner.
///
/// It is generic in what it holds so that a session with a single kind of
/// unmarshaler needs no indirection; the usual choice is the default, a boxed
/// unmarshaler of any kind.
pub struct BpfEvents<U: Unmarshaler = Box<dyn Unmarshaler>> {
    unmarshalers: HashMap<u8, U>,
}

impl<U: Unmarshaler> View for BpfEvents<U> {
    type V = Map<u8, U>;

    /// The unmarshaler registered for each owner tag.
    closed spec fn view(&self) -> Map<u8, U> {
        self.unmarshalers@
    }
}

impl<U: Unmarshaler> BpfEvents<U> {
    /// A registry without any unmarshaler.
    pub fn new() -> (events: Self)
        ensures
            events@ == Map::<u8, U>::empty(),
    {
        BpfEvents { unmarshalers: HashMap::new() }
    }

    /// Whether an unmarshaler is registered for `owner`.
    pub fn has_unmarshaler(&self, owner: BpfEventOwner) -> (b: bool)
        ensures
            b == self@.contains_key(owner.tag_spec()),
    {
        self.unmarshalers.contains_key(&owner.tag())
    }

    /// Registers the unmarshaler of `owner`.
    ///
    /// An owner has one unmarshaler for the whole session. A second
    /// registration for the same owner fails with [`Error::NameConflict`]
    /// and leaves the first one in place.
    pub fn register_unmarshaler(&mut self, owner: BpfEventOwner, unmarshaler: U) -> (r: Result<
        (),
        Error,
    >)
        ensures
            r is Err <==> old(self)@.contains_key(owner.tag_spec()),
            r is Err ==> r == Err::<(), Error>(Error::NameConflict) && final(self)@ == old(self)@,
            r is Ok ==> final(self)@ == old(self)@.insert(owner.tag_spec(), unmarshaler),
            r is Ok ==> final(self)@.dom() == old(self)@.dom().insert(owner.tag_spec()),
            r is Ok ==> forall|tag: u8| #[trigger]
                old(self)@.contains_key(tag) ==> final(self)@[tag] == old(self)@[tag],
    {
        let tag = owner.tag();
        if self.unmarshalers.contains_key(&tag) {
            return Err(Error::NameConflict);
        }
        self.unmarshalers.insert(tag, unmarshaler);
        Ok(())
    }

    /// Unmarshals one raw section into `fields`.
    ///
    /// Fails with [`Error::UnknownOwner`] if no unmarshaler is registered for
    /// the section's owner. Otherwise the owner's unmarshaler, and no other,
    /// runs on the section with an empty list to fill; what it returns is
    /// returned, and the fields it produced are appended if it succeeded. A
    /// failure never changes `fields`, so it stays confined to the one
    /// section.
    pub fn unmarshal(&self, section: &BpfRawSection, fields: &mut Vec<EventField>) -> (r: Result<
        (),
        Error,
    >)
        ensures
            !self@.contains_key(section.owner) ==> r == Err::<(), Error>(Error::UnknownOwner),
            self@.contains_key(section.owner) ==> exists|given: &mut Vec<EventField>|
                {
                    &&& given@ == Seq::<EventField>::empty()
                    &&& #[trigger] call_ensures(
                        U::unmarshal,
                        (&self@[section.owner], section, given),
                        r,
                    )
                    &&& r is Ok ==> final(fields)@ == old(fields)@ + final(given)@
                },
            r is Ok ==> self@.contains_key(section.owner),
            r is Ok ==> old(fields)@.is_prefix_of(final(fields)@),
            r is Err ==> final(fields)@ == old(fields)@,
    {
        match self.unmarshalers.get(&section.owner) {
            None => Err(Error::UnknownOwner),
            Some(unmarshaler) => {
                let mut produced: Vec<EventField> = Vec::new();
                let outcome = unmarshaler.unmarshal(section, &mut produced);
                emit(fields, produced, outcome)
            },
        }
    }
}

} // verus!
