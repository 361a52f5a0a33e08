//! User-space targets and the events their probes emit.

use crate::error::Error;
use crate::events::{
    BpfEventOwner, BpfEvents, BpfRawSection, EventField, FieldValue, FieldView, Unmarshaler,
};
use vstd::prelude::*;

verus! {

/// A static marker that a binary declares: its provider, its name and the
/// address it sits at.
#[derive(Debug, PartialEq, Eq)]
pub struct UsdtNote {
    pub provider: String,
    pub name: String,
    pub addr: u64,
}

/// How a marker is named as a target: its provider, two colons, its name.
pub open spec fn usdt_target(provider: Seq<char>, name: Seq<char>) -> Seq<char> {
    provider + "::"@ + name
}

impl UsdtNote {
    /// Whether `target` names this marker.
    pub open spec fn is_target_spec(&self, target: Seq<char>) -> bool {
        usdt_target(self.provider@, self.name@) == target
    }

    /// Whether `target` names this marker.
    pub fn is_target(&self, target: &String) -> (b: bool)
        ensures
            b == self.is_target_spec(target@),
    {
        let mut full = self.provider.clone();
        full.append("::");
        full.append(self.name.as_str());
        full == *target
    }
}

/// Whether `i` is the place of the first note in `notes` that `target` names.
pub open spec fn first_note(notes: Seq<UsdtNote>, target: Seq<char>, i: int) -> bool {
    &&& 0 <= i < notes.len()
    &&& notes[i].is_target_spec(target)
    &&& forall|j: int| 0 <= j < i ==> !(#[trigger] notes[j]).is_target_spec(target)
}

/// Whether `target` names none of `notes`.
pub open spec fn no_note(notes: Seq<UsdtNote>, target: Seq<char>) -> bool {
    forall|j: int| 0 <= j < notes.len() ==> !(#[trigger] notes[j]).is_target_spec(target)
}

/// The marker table of a binary.
#[derive(Debug, PartialEq, Eq)]
pub struct UsdtInfo {
    pub notes: Vec<UsdtNote>,
}

impl UsdtInfo {
    /// The place of the first marker that `target` names, if there is one.
    pub fn find(&self, target: &str) -> (r: Option<usize>)
        ensures
            match r {
                Some(i) => first_note(self.notes@, target@, i as int),
                None => no_note(self.notes@, target@),
            },
    {
        let wanted = target.to_owned();
        let mut i: usize = 0;
        while i < self.notes.len()
            invariant
                i <= self.notes@.len(),
                wanted@ == target@,
                forall|j: int| 0 <= j < i ==> !(#[trigger] self.notes@[j]).is_target_spec(target@),
            decreases self.notes@.len() - i,
        {
            if self.notes[i].is_target(&wanted) {
                return Some(i);
            }
            i += 1;
        }
        None
    }

    /// The first marker that `target` names, if there is one.
    pub fn get_note(&self, target: &str) -> (r: Option<&UsdtNote>)
        ensures
            match r {
                Some(note) => exists|i: int|
                    first_note(self.notes@, target@, i) && *note == self.notes@[i],
                None => no_note(self.notes@, target@),
            },
    {
        match self.find(target) {
            Some(i) => Some(&self.notes[i]),
            None => None,
        }
    }

    /// Whether `target` names a marker of the table.
    pub fn is_usdt(&self, target: &str) -> (b: bool)
        ensures
            b == !no_note(self.notes@, target@),
    {
        self.find(target).is_some()
    }
}

/// What is known of a running process: its id, the path of its binary and,
/// where the binary has one, its marker table.
///
/// It is a snapshot taken by whoever inspected the process. Nothing keeps it
/// in step with the process: after a restart it has to be taken again.
#[derive(Debug, PartialEq, Eq)]
pub struct Process {
    pub pid: i32,
    pub path: String,
    pub usdt_info: Option<UsdtInfo>,
}

impl Process {
    /// The process's id.
    pub fn pid(&self) -> (pid: i32)
        ensures
            pid == self.pid,
    {
        self.pid
    }

    /// The path of the process's binary.
    pub fn path(&self) -> (path: &String)
        ensures
            path == self.path,
    {
        &self.path
    }

    /// The marker table of the process's binary, if it has one.
    pub fn usdt_info(&self) -> (info: Option<&UsdtInfo>)
        ensures
            match info {
                Some(table) => self.usdt_info == Some(*table),
                None => self.usdt_info is None,
            },
    {
        self.usdt_info.as_ref()
    }
}

/// A static marker of a process, resolved.
#[derive(Debug, PartialEq)]
pub struct UsdtProbe {
    /// The provider name.
    pub provider: String,
    /// The marker's name.
    pub name: String,
    /// The marker's address.
    pub ksym: u64,
    /// The path of the target's binary.
    pub path: String,
    /// The target's pid.
    pub pid: i32,
}

impl UsdtProbe {
    /// What resolving the marker `note` of `process` gives.
    pub open spec fn resolved(process: &Process, note: UsdtNote) -> UsdtProbe {
        UsdtProbe {
            provider: note.provider,
            name: note.name,
            ksym: note.addr,
            path: process.path,
            pid: process.pid,
        }
    }

    /// Resolves the marker that `target` names, as `provider::name`, in
    /// `process`.
    ///
    /// Fails with [`Error::MissingCapability`] if the process has no marker
    /// table, and with [`Error::NotFound`] if it has one that holds no such
    /// marker. If several markers go by the name, the first of the table is
    /// taken.
    pub fn new(process: &Process, target: &str) -> (r: Result<UsdtProbe, Error>)
        ensures
            match process.usdt_info {
                None => r == Err::<UsdtProbe, Error>(Error::MissingCapability),
                Some(info) => if no_note(info.notes@, target@) {
                    r == Err::<UsdtProbe, Error>(Error::NotFound)
                } else {
                    exists|i: int|
                        first_note(info.notes@, target@, i) && r == Ok::<UsdtProbe, Error>(
                            UsdtProbe::resolved(process, info.notes@[i]),
                        )
                },
            },
    {
        let info = match process.usdt_info() {
            Some(info) => info,
            None => { return Err(Error::MissingCapability); },
        };
        let note = match info.get_note(target) {
            Some(note) => note,
            None => { return Err(Error::NotFound); },
        };
        Ok(
            UsdtProbe {
                provider: note.provider.clone(),
                name: note.name.clone(),
                ksym: note.addr,
                path: process.path().clone(),
                pid: process.pid(),
            },
        )
    }

    /// What [`UsdtProbe::name`] returns.
    pub open spec fn name_spec(&self) -> Seq<char> {
        "usdt:"@ + self.provider@ + ":"@ + self.name@
    }

    /// A printable name: `usdt:`, the provider, a colon, the marker's name.
    pub fn name(&self) -> (r: String)
        ensures
            r@ == self.name_spec(),
    {
        let mut r = "usdt:".to_owned();
        r.append(self.provider.as_str());
        r.append(":");
        r.append(self.name.as_str());
        r
    }
}

impl Clone for UsdtProbe {
    fn clone(&self) -> (r: UsdtProbe)
        ensures
            r == *self,
    {
        UsdtProbe {
            provider: self.provider.clone(),
            name: self.name.clone(),
            ksym: self.ksym,
            path: self.path.clone(),
            pid: self.pid,
        }
    }
}

/// The order in which the bytes of an integer lie in a payload.
#[derive(Clone, Copy, Debug, PartialEq, Eq, Structural)]
pub enum ByteOrder {
    Little,
    Big,
}

/// The unsigned 64-bit integer that eight bytes spell, least significant
/// byte first.
pub open spec fn u64_le(s: Seq<u8>) -> u64
    recommends
        s.len() == 8,
{
    (s[0] + 0x100 * s[1] + 0x1_0000 * s[2] + 0x100_0000 * s[3] + 0x1_0000_0000 * s[4]
        + 0x100_0000_0000 * s[5] + 0x1_0000_0000_0000 * s[6] + 0x100_0000_0000_0000 * s[7]) as u64
}

/// The unsigned 64-bit integer that eight bytes spell, most significant byte
/// first.
pub open spec fn u64_be(s: Seq<u8>) -> u64
    recommends
        s.len() == 8,
{
    (s[7] + 0x100 * s[6] + 0x1_0000 * s[5] + 0x100_0000 * s[4] + 0x1_0000_0000 * s[3]
        + 0x100_0000_0000 * s[2] + 0x1_0000_0000_0000 * s[1] + 0x100_0000_0000_0000 * s[0]) as u64
}

/// The unsigned 64-bit integer that eight bytes spell in the given order.
pub open spec fn u64_from_bytes(order: ByteOrder, s: Seq<u8>) -> u64
    recommends
        s.len() == 8,
{
    match order {
        ByteOrder::Little => u64_le(s),
        ByteOrder::Big => u64_be(s),
    }
}

/// A 32-bit pattern read as a signed integer in two's complement.
pub open spec fn signed32(bits: int) -> i32
    recommends
        0 <= bits < 0x1_0000_0000,
{
    if bits < 0x8000_0000 {
        bits as i32
    } else {
        (bits - 0x1_0000_0000) as i32
    }
}

/// The low 32 bits of `x` as a signed integer.
pub open spec fn low_half(x: u64) -> i32 {
    signed32(x as int % 0x1_0000_0000)
}

/// The high 32 bits of `x` as a signed integer.
pub open spec fn high_half(x: u64) -> i32 {
    signed32(x as int / 0x1_0000_0000)
}

/// `u64::from_ne_bytes` of the standard library: the integer whose
/// representation in this machine's memory is `bytes`. Machines differ in the
/// order they use, so all that is claimed is that it is one of the two.
#[verifier::external_body]
fn u64_from_ne_bytes(bytes: [u8; 8]) -> (r: u64)
    ensures
        r == u64_le(bytes@) || r == u64_be(bytes@),
{
    u64::from_ne_bytes(bytes)
}

/// The eight bytes whose reading tells the two orders apart: a one, then
/// seven zeros.
pub open spec fn order_probe() -> Seq<u8> {
    seq![1u8, 0u8, 0u8, 0u8, 0u8, 0u8, 0u8, 0u8]
}

impl ByteOrder {
    /// The byte order of the machine this runs on, which is the order of the
    /// payloads that programs running on the same machine emit.
    ///
    /// The machine is asked how it reads the bytes of [`order_probe`]; what
    /// follows from its answer is said by [`ByteOrder::reading`]. Which answer
    /// a machine gives is not for this crate to say.
    pub fn native() -> ByteOrder {
        ByteOrder::reading(u64_from_ne_bytes([1, 0, 0, 0, 0, 0, 0, 0]))
    }

    /// What [`ByteOrder::reading`] returns.
    pub open spec fn reading_spec(probe: u64) -> ByteOrder {
        if probe == u64_le(order_probe()) {
            ByteOrder::Little
        } else {
            ByteOrder::Big
        }
    }

    /// The byte order of a machine that reads the bytes of [`order_probe`]
    /// as the integer `probe`: the least significant byte first if that is
    /// one, the most significant byte first otherwise.
    pub fn reading(probe: u64) -> (order: ByteOrder)
        ensures
            order == ByteOrder::reading_spec(probe),
    {
        if probe == 1 {
            ByteOrder::Little
        } else {
            ByteOrder::Big
        }
    }

    /// Reads the unsigned 64-bit integer that starts at `at` in `data`.
    pub fn read_u64(self, data: &[u8], at: usize) -> (r: u64)
        requires
            at + 8 <= data@.len(),
        ensures
            r == u64_from_bytes(self, data@.subrange(at as int, at + 8)),
    {
        let b0 = data[at] as u64;
        let b1 = data[at + 1] as u64;
        let b2 = data[at + 2] as u64;
        let b3 = data[at + 3] as u64;
        let b4 = data[at + 4] as u64;
        let b5 = data[at + 5] as u64;
        let b6 = data[at + 6] as u64;
        let b7 = data[at + 7] as u64;
        match self {
            ByteOrder::Little => b0 + 0x100 * b1 + 0x1_0000 * b2 + 0x100_0000 * b3 + 0x1_0000_0000
                * b4 + 0x100_0000_0000 * b5 + 0x1_0000_0000_0000 * b6 + 0x100_0000_0000_0000 * b7,
            ByteOrder::Big => b7 + 0x100 * b6 + 0x1_0000 * b5 + 0x100_0000 * b4 + 0x1_0000_0000
                * b3 + 0x100_0000_0000 * b2 + 0x1_0000_0000_0000 * b1 + 0x100_0000_0000_0000 * b0,
        }
    }
}

/// The reading of the probing bytes tells the orders apart: from what the
/// bytes of [`order_probe`] spell in an order, that order is found again.
pub proof fn lemma_reading_finds_order(order: ByteOrder)
    ensures
        ByteOrder::reading_spec(u64_from_bytes(order, order_probe())) == order,
        u64_le(order_probe()) == 1,
        u64_be(order_probe()) == 0x100_0000_0000_0000,
{
}

/// The length of the payload of a user-space section.
pub const USER_SECTION_SIZE: usize = 17;

/// The event subtype of a static marker that was hit.
pub const USER_EVENT_USDT: u8 = 1;

/// What the payload of a user-space section says.
#[derive(Clone, Copy, Debug, PartialEq, Eq, Structural)]
pub struct UserEvent {
    /// The address that was hit.
    pub symbol: u64,
    /// The process that hit it.
    pub pid: i32,
    /// The thread that hit it.
    pub tid: i32,
    /// The event subtype.
    pub event_type: u8,
}

/// The event that a payload of [`USER_SECTION_SIZE`] bytes holds: the address
/// in bytes 0 to 7, the process id in the low half and the thread id in the
/// high half of the integer in bytes 8 to 15, the subtype in byte 16.
pub open spec fn user_event(order: ByteOrder, data: Seq<u8>) -> UserEvent
    recommends
        data.len() == USER_SECTION_SIZE,
{
    let pid_tid = u64_from_bytes(order, data.subrange(8, 16));
    UserEvent {
        symbol: u64_from_bytes(order, data.subrange(0, 8)),
        pid: low_half(pid_tid),
        tid: high_half(pid_tid),
        event_type: data[16],
    }
}

/// The two signed halves of a 64-bit integer.
fn split_halves(x: u64) -> (r: (i32, i32))
    ensures
        r.0 == low_half(x),
        r.1 == high_half(x),
{
    let low = x & 0xFFFF_FFFF;
    let high = x >> 32;
    assert(low == x % 0x1_0000_0000) by (bit_vector)
        requires
            low == x & 0xFFFF_FFFF,
    ;
    assert(high == x / 0x1_0000_0000) by (bit_vector)
        requires
            high == x >> 32,
    ;
    (to_signed32(low), to_signed32(high))
}

/// A 32-bit pattern as a signed integer.
fn to_signed32(bits: u64) -> (r: i32)
    requires
        bits < 0x1_0000_0000,
    ensures
        r == signed32(bits as int),
{
    if bits < 0x8000_0000 {
        bits as i32
    } else {
        (bits as i64 - 0x1_0000_0000) as i32
    }
}

/// What the symbol behind an address resolved to.
#[derive(Debug, PartialEq, Eq)]
pub struct SymbolInfo {
    /// The name of the symbol at the address.
    pub symbol: String,
    /// The path of the binary the process runs.
    pub path: String,
}

/// Looks up, in the running system, the symbol at an address of a process.
///
/// Nothing is promised about the answer: it depends on which processes run
/// at the time of the call.
pub trait SymbolResolver {
    fn resolve(&self, pid: i32, addr: u64) -> Result<SymbolInfo, Error>;
}

impl UserEvent {
    /// Reads an event from the payload of a user-space section.
    ///
    /// The payload has to be exactly [`USER_SECTION_SIZE`] bytes long: a
    /// shorter or a longer one fails with [`Error::SizeMismatch`].
    pub fn parse(data: &[u8], order: ByteOrder) -> (r: Result<UserEvent, Error>)
        ensures
            data@.len() != USER_SECTION_SIZE ==> r == Err::<UserEvent, Error>(Error::SizeMismatch),
            data@.len() == USER_SECTION_SIZE ==> r == Ok::<UserEvent, Error>(
                user_event(order, data@),
            ),
    {
        if data.len() != USER_SECTION_SIZE {
            return Err(Error::SizeMismatch);
        }
        let symbol = order.read_u64(data, 0);
        let pid_tid = order.read_u64(data, 8);
        let event_type = data[16];
        let (pid, tid) = split_halves(pid_tid);
        Ok(UserEvent { symbol, pid, tid, event_type })
    }

    /// The label of the event's subtype.
    pub open spec fn type_label(self) -> Seq<char> {
        if self.event_type == USER_EVENT_USDT {
            "usdt"@
        } else {
            "unknown"@
        }
    }

    /// The fields of the event, given the name of the symbol at its address
    /// and the path of the binary of its process.
    pub open spec fn fields(self, symbol: Seq<char>, path: Seq<char>) -> Seq<FieldView> {
        seq![
            FieldView { name: "pid"@, value: FieldValue::I32(self.pid) },
            FieldView { name: "tid"@, value: FieldValue::I32(self.tid) },
            FieldView { name: "symbol"@, value: FieldValue::Str(symbol) },
            FieldView { name: "ip"@, value: FieldValue::U64(self.symbol) },
            FieldView { name: "path"@, value: FieldValue::Str(path) },
            FieldView { name: "type"@, value: FieldValue::Str(self.type_label()) },
        ]
    }

    /// Appends the fields of the event to `fields`.
    pub fn push_fields(&self, info: SymbolInfo, fields: &mut Vec<EventField>)
        ensures
            final(fields).deep_view() == old(fields).deep_view() + self.fields(
                info.symbol@,
                info.path@,
            ),
    {
        let label = if self.event_type == USER_EVENT_USDT {
            "usdt".to_owned()
        } else {
            "unknown".to_owned()
        };
        fields.push(EventField::from_i32("pid", self.pid));
        fields.push(EventField::from_i32("tid", self.tid));
        fields.push(EventField::from_string("symbol", info.symbol));
        fields.push(EventField::from_u64("ip", self.symbol));
        fields.push(EventField::from_string("path", info.path));
        fields.push(EventField::from_string("type", label));
        assert(final(fields).deep_view() =~= old(fields).deep_view() + self.fields(
            info.symbol@,
            info.path@,
        ));
    }

    /// Appends the fields of the event to `fields` if its symbol was
    /// resolved, and hands the resolver's failure on if it was not. On
    /// failure `fields` is left as it was.
    pub fn emit(&self, resolved: Result<SymbolInfo, Error>, fields: &mut Vec<EventField>) -> (r:
        Result<(), Error>)
        ensures
            match resolved {
                Ok(info) => r is Ok && final(fields).deep_view() == old(fields).deep_view()
                    + self.fields(info.symbol@, info.path@),
                Err(e) => r == Err::<(), Error>(e) && final(fields)@ == old(fields)@,
            },
    {
        match resolved {
            Ok(info) => {
                self.push_fields(info, fields);
                Ok(())
            },
            Err(e) => Err(e),
        }
    }
}

/// A boxed resolver is the resolver in the box.
impl<T: SymbolResolver + ?Sized> SymbolResolver for Box<T> {
    /// What the resolver in the box answers for the same process and the
    /// same address.
    fn resolve(&self, pid: i32, addr: u64) -> (r: Result<SymbolInfo, Error>)
        ensures
            call_ensures(T::resolve, (&**self, pid, addr), r),
    {
        (**self).resolve(pid, addr)
    }
}

/// The unmarshaler of user-space sections.
pub struct UserUnmarshaler<R: SymbolResolver> {
    order: ByteOrder,
    resolver: R,
}

impl<R: SymbolResolver> UserUnmarshaler<R> {
    /// An unmarshaler for payloads in the given byte order, which resolves
    /// addresses with `resolver`.
    pub fn new(order: ByteOrder, resolver: R) -> (u: Self)
        ensures
            u.order() == order,
            u.resolver() == resolver,
    {
        UserUnmarshaler { order, resolver }
    }

    /// The byte order of the payloads.
    pub closed spec fn order(&self) -> ByteOrder {
        self.order
    }

    /// What resolves the addresses.
    pub closed spec fn resolver(&self) -> R {
        self.resolver
    }
}

impl<R: SymbolResolver> Unmarshaler for UserUnmarshaler<R> {
    /// Turns a user-space section into its six fields.
    ///
    /// A payload of the wrong length fails with [`Error::SizeMismatch`].
    /// For a payload of the right length the resolver is asked, anew for
    /// each event, for the symbol at the event's address in the event's
    /// process. With its answer the six fields are appended; its failure is
    /// handed on as it is. No failure leaves anything in `fields`.
    fn unmarshal(&self, section: &BpfRawSection, fields: &mut Vec<EventField>) -> (r: Result<
        (),
        Error,
    >)
        ensures
            section.data@.len() != USER_SECTION_SIZE ==> r == Err::<(), Error>(Error::SizeMismatch),
            section.data@.len() == USER_SECTION_SIZE ==> {
                let event = user_event(self.order(), section.data@);
                exists|resolved: Result<SymbolInfo, Error>|
                    {
                        &&& #[trigger] call_ensures(
                            R::resolve,
                            (&self.resolver(), event.pid, event.symbol),
                            resolved,
                        )
                        &&& match resolved {
                            Ok(info) => r is Ok && final(fields).deep_view() == old(
                                fields,
                            ).deep_view() + event.fields(info.symbol@, info.path@),
                            Err(e) => r == Err::<(), Error>(e),
                        }
                    }
            },
            r is Err ==> final(fields)@ == old(fields)@,
    {
        match UserEvent::parse(section.data.as_slice(), self.order) {
            Err(e) => Err(e),
            Ok(event) => {
                let resolved = self.resolver.resolve(event.pid, event.symbol);
                event.emit(resolved, fields)
            },
        }
    }
}

/// Registers the unmarshaler of user-space sections, which reads payloads in
/// this machine's byte order and resolves addresses with `resolver`.
///
/// Fails with [`Error::NameConflict`], and changes nothing, if user-space
/// sections already have an unmarshaler.
pub fn register_unmarshaler(events: &mut BpfEvents, resolver: Box<dyn SymbolResolver>) -> (r:
    Result<(), Error>)
    ensures
        r is Ok <==> !old(events)@.contains_key(BpfEventOwner::Userspace.tag_spec()),
        r is Err ==> r == Err::<(), Error>(Error::NameConflict) && final(events)@ == old(events)@,
        r is Ok ==> final(events)@.dom() == old(events)@.dom().insert(
            BpfEventOwner::Userspace.tag_spec(),
        ),
        r is Ok ==> forall|tag: u8| #[trigger]
            old(events)@.contains_key(tag) ==> final(events)@[tag] == old(events)@[tag],
{
    let unmarshaler: Box<dyn Unmarshaler> = Box::new(
        UserUnmarshaler::new(ByteOrder::native(), resolver),
    );
    events.register_unmarshaler(BpfEventOwner::Userspace, unmarshaler)
}

} // verus!
