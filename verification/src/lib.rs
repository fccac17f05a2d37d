//! Capacity-event reporting for instrumented containers.
//!
//! A [`Report`] maps opaque identifiers ([`Uid`]) to records ([`LineItem`])
//! that log every capacity-affecting mutation of an instrumented container
//! as an append-only sequence of [`ReportEvent`]s.

use vstd::prelude::*;

pub mod vec;

verus! {

/// An opaque identifier, unique per registry for the registry's lifetime.
///
/// Identifiers are allocated by [`Report::create`] from a monotonically
/// increasing counter and are never reused.  They expose equality, ordering
/// and hashing, but no arithmetic.
#[derive(Clone, Copy, Debug, Eq, Hash, Ord, PartialEq, PartialOrd, Structural)]
pub struct Uid(u64);

impl View for Uid {
    type V = u64;

    closed spec fn view(&self) -> u64 {
        self.0
    }
}

/// The sixteen lowercase hexadecimal digit characters, indexed by value.
pub open spec fn hex_digit(d: int) -> char
    recommends
        0 <= d < 16,
{
    seq!['0', '1', '2', '3', '4', '5', '6', '7', '8', '9', 'a', 'b', 'c', 'd', 'e', 'f'][d]
}

/// The lowercase hexadecimal rendering of `n`, most significant digit first,
/// without leading zeros (a single `'0'` for zero itself).
pub open spec fn hex_digits(n: int) -> Seq<char>
    recommends
        n >= 0,
    decreases n,
{
    if n < 16 {
        seq![hex_digit(n)]
    } else {
        hex_digits(n / 16).push(hex_digit(n % 16))
    }
}

/// The one-character string slice for a single hexadecimal digit.
fn hex_digit_str(d: u64) -> (s: &'static str)
    requires
        d < 16,
    ensures
        s@ == seq![hex_digit(d as int)],
{
    proof {
        reveal_strlit("0");
        reveal_strlit("1");
        reveal_strlit("2");
        reveal_strlit("3");
        reveal_strlit("4");
        reveal_strlit("5");
        reveal_strlit("6");
        reveal_strlit("7");
        reveal_strlit("8");
        reveal_strlit("9");
        reveal_strlit("a");
        reveal_strlit("b");
        reveal_strlit("c");
        reveal_strlit("d");
        reveal_strlit("e");
        reveal_strlit("f");
    }
    let s: &'static str = match d {
        0 => "0",
        1 => "1",
        2 => "2",
        3 => "3",
        4 => "4",
        5 => "5",
        6 => "6",
        7 => "7",
        8 => "8",
        9 => "9",
        10 => "a",
        11 => "b",
        12 => "c",
        13 => "d",
        14 => "e",
        _ => "f",
    };
    assert(s@ =~= seq![hex_digit(d as int)]);
    s
}

/// Appends the hexadecimal rendering of `n` to `out`.
fn push_hex(n: u64, out: &mut String)
    ensures
        final(out)@ == old(out)@ + hex_digits(n as int),
    decreases n,
{
    if n < 16 {
        let s = hex_digit_str(n);
        out.append(s);
        assert(out@ =~= old(out)@ + hex_digits(n as int));
    } else {
        push_hex(n / 16, out);
        let s = hex_digit_str(n % 16);
        out.append(s);
        assert(out@ =~= old(out)@ + hex_digits(n as int));
    }
}

impl Uid {
    /// Renders the identifier as `0x` followed by its lowercase hex digits.
    pub fn hex_string(&self) -> (s: String)
        ensures
            s@ == "0x"@ + hex_digits(self@ as int),
    {
        let mut s = String::from_str("0x");
        push_hex(self.0, &mut s);
        s
    }
}

proof fn lemma_hex_digit_injective(d1: int, d2: int)
    requires
        0 <= d1 < 16,
        0 <= d2 < 16,
        hex_digit(d1) == hex_digit(d2),
    ensures
        d1 == d2,
{
    assert(hex_digit(0) == '0');
    assert(hex_digit(1) == '1');
    assert(hex_digit(2) == '2');
    assert(hex_digit(3) == '3');
    assert(hex_digit(4) == '4');
    assert(hex_digit(5) == '5');
    assert(hex_digit(6) == '6');
    assert(hex_digit(7) == '7');
    assert(hex_digit(8) == '8');
    assert(hex_digit(9) == '9');
    assert(hex_digit(10) == 'a');
    assert(hex_digit(11) == 'b');
    assert(hex_digit(12) == 'c');
    assert(hex_digit(13) == 'd');
    assert(hex_digit(14) == 'e');
    assert(hex_digit(15) == 'f');
}

proof fn lemma_hex_digits_len(n: int)
    requires
        n >= 0,
    ensures
        n < 16 ==> hex_digits(n).len() == 1,
        n >= 16 ==> hex_digits(n).len() >= 2,
    decreases n,
{
    if n >= 16 {
        lemma_hex_digits_len(n / 16);
    }
}

proof fn lemma_hex_digits_injective(a: int, b: int)
    requires
        a >= 0,
        b >= 0,
        hex_digits(a) == hex_digits(b),
    ensures
        a == b,
    decreases a,
{
    lemma_hex_digits_len(a);
    lemma_hex_digits_len(b);
    if a < 16 && b < 16 {
        assert(hex_digits(a)[0] == hex_digit(a));
        assert(hex_digits(b)[0] == hex_digit(b));
        lemma_hex_digit_injective(a, b);
    } else if a >= 16 && b >= 16 {
        let sa = hex_digits(a / 16);
        let sb = hex_digits(b / 16);
        assert(sa.push(hex_digit(a % 16)).last() == hex_digit(a % 16));
        assert(sb.push(hex_digit(b % 16)).last() == hex_digit(b % 16));
        lemma_hex_digit_injective(a % 16, b % 16);
        assert(sa.push(hex_digit(a % 16)).drop_last() =~= sa);
        assert(sb.push(hex_digit(b % 16)).drop_last() =~= sb);
        assert(sa == sb);
        lemma_hex_digits_injective(a / 16, b / 16);
        assert(a == 16 * (a / 16) + a % 16);
        assert(b == 16 * (b / 16) + b % 16);
    }
}

/// One capacity-affecting fact about a container, immutable once recorded.
#[derive(Clone, Copy, Debug, Eq, PartialEq, Structural)]
pub enum ReportEvent {
    /// An explicit ceiling in capacity was declared for this instance;
    /// this may come from `with_capacity` or from `set_max_capacity`.
    MaxCapacitySet(usize),
    /// Physical capacity grew from the first value to the second.
    CapacityIncrease(usize, usize),
    /// Physical capacity shrank from the first value to the second.
    CapacityDecrease(usize, usize),
}

/// The mathematical value of a [`LineItem`]: an identifier together with
/// the record state the registry holds for it.
#[verifier::ext_equal]
pub ghost struct RecordView {
    pub id: Uid,
    pub name: Seq<char>,
    pub events: Seq<ReportEvent>,
    pub max_capacity: Option<usize>,
}

/// The placeholder name a fresh record starts with; it carries the
/// identifier's hex rendering, so distinct identifiers get distinct names.
pub open spec fn default_name(n: u64) -> Seq<char> {
    "Unnamed-0x"@ + hex_digits(n as int)
}

/// The record a fresh identifier starts with: a uniqueness-bearing
/// placeholder name, no events, and no capacity ceiling.
pub open spec fn default_record_view(id: Uid) -> RecordView {
    RecordView { id, name: default_name(id@), events: Seq::empty(), max_capacity: None }
}

/// The record the registry holds for `id`, or the default record when none
/// exists yet (the read side of get-or-create).
pub open spec fn record_or_default(m: Map<Uid, RecordView>, id: Uid) -> RecordView {
    if m.contains_key(id) {
        m[id]
    } else {
        default_record_view(id)
    }
}

/// `r` with `e` appended at the end of its event sequence.
pub open spec fn with_event(r: RecordView, e: ReportEvent) -> RecordView {
    RecordView { events: r.events.push(e), ..r }
}

/// `r` with its display name replaced.
pub open spec fn with_name(r: RecordView, name: Seq<char>) -> RecordView {
    RecordView { name, ..r }
}

/// `r` with its capacity ceiling replaced.
pub open spec fn with_max_capacity(r: RecordView, limit: usize) -> RecordView {
    RecordView { max_capacity: Some(limit), ..r }
}

/// The registry state after an event is appended for `id`: the record is
/// created at its default when absent, and gains `e` at the end of its
/// event sequence; no other identifier's record changes.
pub open spec fn apply_append(m: Map<Uid, RecordView>, id: Uid, e: ReportEvent) -> Map<
    Uid,
    RecordView,
> {
    m.insert(id, with_event(record_or_default(m, id), e))
}

/// One registry record: a display name, the ordered event log, and an
/// optional capacity ceiling, keyed by the owning container's identifier.
#[derive(Debug, PartialEq)]
pub struct LineItem {
    pub id: Uid,
    pub instance_name: String,
    pub events: Vec<ReportEvent>,
    pub max_capacity: Option<usize>,
}

impl View for LineItem {
    type V = RecordView;

    open spec fn view(&self) -> RecordView {
        RecordView {
            id: self.id,
            name: self.instance_name@,
            events: self.events@,
            max_capacity: self.max_capacity,
        }
    }
}

impl LineItem {
    /// Returns an independent copy carrying the same record value.
    pub fn duplicate(&self) -> (r: LineItem)
        ensures
            r@ == self@,
    {
        let mut events: Vec<ReportEvent> = Vec::new();
        let mut i: usize = 0;
        while i < self.events.len()
            invariant
                i <= self.events@.len(),
                events@ =~= self.events@.subrange(0, i as int),
            decreases self.events@.len() - i,
        {
            events.push(self.events[i]);
            i = i + 1;
        }
        assert(events@ =~= self.events@);
        let r = LineItem {
            id: self.id,
            instance_name: self.instance_name.clone(),
            events,
            max_capacity: self.max_capacity,
        };
        assert(r@ =~= self@);
        r
    }
}

/// Builds the default record for `id` as an owned value.
fn default_line_item(id: Uid) -> (r: LineItem)
    ensures
        r@ == default_record_view(id),
{
    let mut name = String::from_str("Unnamed-0x");
    push_hex(id.0, &mut name);
    let r = LineItem { id, instance_name: name, events: Vec::new(), max_capacity: None };
    assert(r@ =~= default_record_view(id));
    r
}

/// No identifier appears on two records of `s`.
spec fn unique_ids(s: Seq<LineItem>) -> bool {
    forall|i: int, j: int| 0 <= i < j < s.len() ==> s[i].id != s[j].id
}

/// The mapping carried by a sequence of records, later entries winning.
spec fn map_of(s: Seq<LineItem>) -> Map<Uid, RecordView>
    decreases s.len(),
{
    if s.len() == 0 {
        Map::empty()
    } else {
        map_of(s.drop_last()).insert(s.last().id, s.last()@)
    }
}

proof fn lemma_map_of_contains(s: Seq<LineItem>, k: Uid)
    ensures
        map_of(s).contains_key(k) <==> exists|i: int| 0 <= i < s.len() && s[i].id == k,
    decreases s.len(),
{
    if s.len() > 0 {
        lemma_map_of_contains(s.drop_last(), k);
        assert(forall|i: int| 0 <= i < s.len() - 1 ==> s.drop_last()[i] == s[i]);
        if s.last().id == k {
            assert(s[s.len() - 1].id == k);
        } else {
            if map_of(s).contains_key(k) {
                let i = choose|i: int| 0 <= i < s.len() - 1 && s.drop_last()[i].id == k;
                assert(s[i].id == k);
            }
            if exists|i: int| 0 <= i < s.len() && s[i].id == k {
                let i = choose|i: int| 0 <= i < s.len() && s[i].id == k;
                assert(i < s.len() - 1);
                assert(s.drop_last()[i].id == k);
            }
        }
    }
}

proof fn lemma_map_of_value(s: Seq<LineItem>, i: int)
    requires
        unique_ids(s),
        0 <= i < s.len(),
    ensures
        map_of(s).contains_key(s[i].id),
        map_of(s)[s[i].id] == s[i]@,
    decreases s.len(),
{
    if i < s.len() - 1 {
        assert(unique_ids(s.drop_last())) by {
            assert(forall|p: int| 0 <= p < s.len() - 1 ==> s.drop_last()[p] == s[p]);
        }
        lemma_map_of_value(s.drop_last(), i);
        assert(s.drop_last()[i] == s[i]);
        assert(s[i].id != s.last().id);
    }
}

proof fn lemma_map_of_update(s: Seq<LineItem>, i: int, x: LineItem)
    requires
        unique_ids(s),
        0 <= i < s.len(),
        x.id == s[i].id,
    ensures
        map_of(s.update(i, x)) == map_of(s).insert(x.id, x@),
    decreases s.len(),
{
    let t = s.update(i, x);
    assert(t.len() == s.len());
    if i == s.len() - 1 {
        assert(t.drop_last() =~= s.drop_last());
        assert(t.last() == x);
        assert(map_of(t) == map_of(s.drop_last()).insert(x.id, x@));
        assert(map_of(s.drop_last()).insert(s.last().id, s.last()@).insert(x.id, x@)
            =~= map_of(s.drop_last()).insert(x.id, x@));
    } else {
        assert(unique_ids(s.drop_last())) by {
            assert(forall|p: int| 0 <= p < s.len() - 1 ==> s.drop_last()[p] == s[p]);
        }
        lemma_map_of_update(s.drop_last(), i, x);
        assert(t.drop_last() =~= s.drop_last().update(i, x));
        assert(t.last() == s.last());
        assert(s[i].id != s.last().id);
        assert(map_of(t) == map_of(s.drop_last()).insert(x.id, x@).insert(s.last().id, s.last()@));
        assert(map_of(s.drop_last()).insert(x.id, x@).insert(s.last().id, s.last()@)
            =~= map_of(s.drop_last()).insert(s.last().id, s.last()@).insert(x.id, x@));
    }
}

proof fn lemma_map_of_dom_len(s: Seq<LineItem>)
    requires
        unique_ids(s),
    ensures
        map_of(s).dom().finite(),
        map_of(s).dom().len() == s.len(),
    decreases s.len(),
{
    if s.len() > 0 {
        assert(unique_ids(s.drop_last())) by {
            assert(forall|p: int| 0 <= p < s.len() - 1 ==> s.drop_last()[p] == s[p]);
        }
        lemma_map_of_dom_len(s.drop_last());
        lemma_map_of_contains(s.drop_last(), s.last().id);
        assert(forall|p: int| 0 <= p < s.len() - 1 ==> s.drop_last()[p] == s[p]);
        assert(!map_of(s.drop_last()).contains_key(s.last().id));
        assert(map_of(s).dom() =~= map_of(s.drop_last()).dom().insert(s.last().id));
    }
}

/// The allocator counter after an operation touched `id`: the counter
/// never stays at or below an identifier it has seen, saturating at the
/// top of the range.
pub open spec fn bump(next: u64, id: u64) -> u64 {
    if id < next {
        next
    } else if id == u64::MAX {
        u64::MAX
    } else {
        (id + 1) as u64
    }
}

/// The registry: the single source of truth mapping identifiers to their
/// records, together with the identifier allocator.
///
/// Its view is the mapping from identifier to record value.  Read
/// accessors hand out owned copies, never references into the registry,
/// so a caller can always reacquire write access right after a read
/// (the read-then-write sequence of a shrink can never block on itself).
pub struct Report {
    next_uid: u64,
    items: Vec<LineItem>,
}

impl View for Report {
    type V = Map<Uid, RecordView>;

    closed spec fn view(&self) -> Map<Uid, RecordView> {
        map_of(self.items@)
    }
}

impl Report {
    /// Every identifier on record stays below the allocator counter
    /// (unless the counter is saturated), and no identifier has two records.
    pub closed spec fn wf(&self) -> bool {
        &&& unique_ids(self.items@)
        &&& self.next_uid == u64::MAX || (forall|i: int|
            0 <= i < self.items@.len() ==> self.items@[i].id@ < self.next_uid)
    }

    /// The value the identifier allocator hands out next.
    pub closed spec fn next_id(&self) -> u64 {
        self.next_uid
    }

    /// Whether the identifier allocator still has a fresh value to hand
    /// out, so that [`Report::create`] may be called.
    pub fn can_create(&self) -> (b: bool)
        ensures
            b == (self.next_id() < u64::MAX),
    {
        self.next_uid < u64::MAX
    }

    /// Creates an empty registry whose allocator starts at zero.
    pub fn new() -> (r: Report)
        ensures
            r.wf(),
            r@ == Map::<Uid, RecordView>::empty(),
            r.next_id() == 0,
    {
        let r = Report { next_uid: 0, items: Vec::new() };
        proof {
            assert(r@ =~= Map::<Uid, RecordView>::empty());
        }
        r
    }

    /// Finds the position of the record for `id`, if one exists.
    fn find_index(&self, id: Uid) -> (r: Option<usize>)
        ensures
            match r {
                Some(i) => i < self.items@.len() && self.items@[i as int].id == id,
                None => forall|j: int| 0 <= j < self.items@.len() ==> self.items@[j].id != id,
            },
    {
        let mut i: usize = 0;
        while i < self.items.len()
            invariant
                i <= self.items@.len(),
                forall|j: int| 0 <= j < i ==> self.items@[j].id != id,
            decreases self.items@.len() - i,
        {
            if self.items[i].id == id {
                return Some(i);
            }
            i = i + 1;
        }
        None
    }

    /// Allocates a fresh identifier and inserts its default record.
    ///
    /// The counter is excluded from saturating here only because a
    /// saturated counter could no longer guarantee a fresh identifier.
    pub fn create(&mut self) -> (id: Uid)
        requires
            old(self).wf(),
            old(self).next_id() < u64::MAX,
        ensures
            final(self).wf(),
            id@ == old(self).next_id(),
            !old(self)@.contains_key(id),
            final(self)@ == old(self)@.insert(id, default_record_view(id)),
            final(self).next_id() == old(self).next_id() + 1,
    {
        let id = Uid(self.next_uid);
        self.next_uid = self.next_uid + 1;
        let item = default_line_item(id);
        proof {
            lemma_map_of_contains(self.items@, id);
        }
        self.items.push(item);
        proof {
            assert(self.items@.drop_last() =~= old(self).items@);
            assert(self.items@.last() == item);
            assert(forall|j: int|
                0 <= j < old(self).items@.len() ==> self.items@[j] == old(self).items@[j]);
        }
        id
    }

    /// Finds the record for `id`, creating the default record when absent
    /// (get-or-create), and moves the allocator counter past `id`.
    fn ensure_entry(&mut self, id: Uid) -> (i: usize)
        requires
            old(self).wf(),
        ensures
            final(self).wf(),
            i < final(self).items@.len(),
            final(self).items@[i as int].id == id,
            final(self).items@[i as int]@ == record_or_default(old(self)@, id),
            unique_ids(final(self).items@),
            final(self)@ == old(self)@.insert(id, record_or_default(old(self)@, id)),
            final(self).next_id() == bump(old(self).next_id(), id@),
    {
        if id.0 < self.next_uid {
        } else if id.0 == u64::MAX {
            self.next_uid = u64::MAX;
        } else {
            self.next_uid = id.0 + 1;
        }
        match self.find_index(id) {
            Some(i) => {
                proof {
                    lemma_map_of_value(self.items@, i as int);
                    assert(self@.insert(id, self@[id]) =~= self@);
                }
                i
            },
            None => {
                proof {
                    lemma_map_of_contains(self.items@, id);
                }
                let item = default_line_item(id);
                let i = self.items.len();
                self.items.push(item);
                proof {
                    assert(self.items@.drop_last() =~= old(self).items@);
                    assert(self.items@.last() == item);
                    assert(forall|j: int|
                        0 <= j < old(self).items@.len() ==> self.items@[j] == old(self).items@[j]);
                }
                i
            },
        }
    }

    /// Appends `event` at the end of the record for `id`, creating the
    /// record at its default first when absent.  Records of other
    /// identifiers are untouched.
    pub fn append_event(&mut self, id: Uid, event: ReportEvent)
        requires
            old(self).wf(),
        ensures
            final(self).wf(),
            final(self)@ == apply_append(old(self)@, id, event),
            final(self).next_id() == bump(old(self).next_id(), id@),
    {
        let i = self.ensure_entry(id);
        let ghost mid = self.items@;
        let ghost reg_mid = self@;
        self.items[i].events.push(event);
        proof {
            let item_new = self.items@[i as int];
            assert(self.items@ =~= mid.update(i as int, item_new));
            assert(item_new@ =~= with_event(record_or_default(old(self)@, id), event));
            lemma_map_of_update(mid, i as int, item_new);
            assert(reg_mid.insert(id, item_new@) =~= apply_append(old(self)@, id, event));
        }
    }

    /// Replaces the display name of the record for `id`, creating the
    /// record at its default first when absent.
    pub fn set_name(&mut self, id: Uid, name: &str)
        requires
            old(self).wf(),
        ensures
            final(self).wf(),
            final(self)@ == old(self)@.insert(
                id,
                with_name(record_or_default(old(self)@, id), name@),
            ),
            final(self).next_id() == bump(old(self).next_id(), id@),
    {
        let i = self.ensure_entry(id);
        let ghost mid = self.items@;
        let ghost reg_mid = self@;
        self.items[i].instance_name = name.to_owned();
        proof {
            let item_new = self.items@[i as int];
            assert(self.items@ =~= mid.update(i as int, item_new));
            assert(item_new@ =~= with_name(record_or_default(old(self)@, id), name@));
            lemma_map_of_update(mid, i as int, item_new);
            assert(reg_mid.insert(id, item_new@) =~= old(self)@.insert(
                id,
                with_name(record_or_default(old(self)@, id), name@),
            ));
        }
    }

    /// Replaces the capacity ceiling of the record for `id`, creating the
    /// record at its default first when absent.
    pub fn set_max_capacity(&mut self, id: Uid, limit: usize)
        requires
            old(self).wf(),
        ensures
            final(self).wf(),
            final(self)@ == old(self)@.insert(
                id,
                with_max_capacity(record_or_default(old(self)@, id), limit),
            ),
            final(self).next_id() == bump(old(self).next_id(), id@),
    {
        let i = self.ensure_entry(id);
        let ghost mid = self.items@;
        let ghost reg_mid = self@;
        self.items[i].max_capacity = Some(limit);
        proof {
            let item_new = self.items@[i as int];
            assert(self.items@ =~= mid.update(i as int, item_new));
            assert(item_new@ =~= with_max_capacity(record_or_default(old(self)@, id), limit));
            lemma_map_of_update(mid, i as int, item_new);
            assert(reg_mid.insert(id, item_new@) =~= old(self)@.insert(
                id,
                with_max_capacity(record_or_default(old(self)@, id), limit),
            ));
        }
    }

    /// Returns an independent copy of the current record for `id`, or the
    /// default record when none exists.
    ///
    /// The copy is owned: no reference into the registry leaves this call,
    /// so the caller may immediately request write access to the same
    /// record within the same logical operation.
    pub fn get_snapshot(&self, id: Uid) -> (r: LineItem)
        requires
            self.wf(),
        ensures
            r@ == record_or_default(self@, id),
    {
        match self.find_index(id) {
            Some(i) => {
                proof {
                    lemma_map_of_value(self.items@, i as int);
                }
                self.items[i].duplicate()
            },
            None => {
                proof {
                    lemma_map_of_contains(self.items@, id);
                }
                default_line_item(id)
            },
        }
    }
}

/// Implemented by instrumented containers that report under an identifier.
pub trait Reportable {
    /// The identifier this value reports under.
    spec fn id_spec(&self) -> Uid;

    /// Returns the owned identifier.
    fn id(&self) -> (r: Uid)
        ensures
            r == self.id_spec(),
    ;
}

impl Report {
    /// Returns an independent copy of the record a container reports under.
    pub fn get_line_item<R: Reportable>(&self, reportable: &R) -> (r: LineItem)
        requires
            self.wf(),
        ensures
            r@ == record_or_default(self@, reportable.id_spec()),
    {
        self.get_snapshot(reportable.id())
    }

    /// Returns independent copies of every record, in insertion order:
    /// one copy per identifier on record, each carrying that identifier's
    /// current record value.
    pub fn line_items(&self) -> (r: Vec<LineItem>)
        requires
            self.wf(),
        ensures
            self@.dom().finite(),
            r@.len() == self@.dom().len(),
            forall|i: int|
                0 <= i < r@.len() ==> self@.contains_key(#[trigger] r@[i].id) && r@[i]@
                    == self@[r@[i].id],
            forall|i: int, j: int| 0 <= i < j < r@.len() ==> r@[i].id != r@[j].id,
            forall|k: Uid|
                self@.contains_key(k) ==> exists|i: int| 0 <= i < r@.len() && #[trigger] r@[i].id
                    == k,
    {
        let mut r: Vec<LineItem> = Vec::new();
        let mut i: usize = 0;
        while i < self.items.len()
            invariant
                i <= self.items@.len(),
                r@.len() == i,
                forall|j: int|
                    0 <= j < i ==> #[trigger] r@[j].id == self.items@[j].id && r@[j]@
                        == self.items@[j]@,
            decreases self.items@.len() - i,
        {
            let item = self.items[i].duplicate();
            r.push(item);
            i = i + 1;
        }
        proof {
            lemma_map_of_dom_len(self.items@);
            assert forall|j: int| 0 <= j < r@.len() implies self@.contains_key(
                #[trigger] r@[j].id,
            ) && r@[j]@ == self@[r@[j].id] by {
                lemma_map_of_value(self.items@, j);
            }
            assert forall|k: Uid| self@.contains_key(k) implies exists|j: int|
                0 <= j < r@.len() && #[trigger] r@[j].id == k by {
                lemma_map_of_contains(self.items@, k);
                let j = choose|j: int| 0 <= j < self.items@.len() && self.items@[j].id == k;
                assert(r@[j].id == k);
            }
        }
        r
    }
}

/// Law: appending an event only extends the touched record's history.
///
/// After an append for `id`, the record for `id` carries exactly its old
/// event sequence with the new event at the end, and the record of every
/// other identifier is unchanged: no event is dropped, duplicated, or
/// reordered by a mutation.
pub proof fn lemma_append_preserves_history(m: Map<Uid, RecordView>, id: Uid, e: ReportEvent)
    ensures
        record_or_default(apply_append(m, id, e), id).events == record_or_default(
            m,
            id,
        ).events.push(e),
        record_or_default(apply_append(m, id, e), id).name == record_or_default(m, id).name,
        record_or_default(apply_append(m, id, e), id).max_capacity == record_or_default(
            m,
            id,
        ).max_capacity,
        forall|other: Uid|
            other != id ==> record_or_default(apply_append(m, id, e), other) == record_or_default(
                m,
                other,
            ),
{
}

/// Law: operations on distinct identifiers commute.
///
/// Appending events for two different identifiers reaches the same
/// registry state in either order, so per-identifier histories are
/// independent of how operations on different containers interleave.
pub proof fn lemma_independent_appends_commute(
    m: Map<Uid, RecordView>,
    a: Uid,
    ea: ReportEvent,
    b: Uid,
    eb: ReportEvent,
)
    requires
        a != b,
    ensures
        apply_append(apply_append(m, a, ea), b, eb) == apply_append(apply_append(m, b, eb), a, ea),
{
    assert(apply_append(apply_append(m, a, ea), b, eb) =~= apply_append(
        apply_append(m, b, eb),
        a,
        ea,
    ));
}

/// Law: creating an identifier and immediately snapshotting it yields the
/// default record: empty events, the placeholder name, and no ceiling.
pub proof fn lemma_create_then_snapshot_is_default(m: Map<Uid, RecordView>, id: Uid)
    ensures
        record_or_default(m.insert(id, default_record_view(id)), id) == default_record_view(id),
        default_record_view(id).events == Seq::<ReportEvent>::empty(),
        default_record_view(id).name == default_name(id@),
        default_record_view(id).max_capacity is None,
{
}

/// Law: default placeholder names bear uniqueness.
///
/// Distinct identifiers always receive distinct default names, because
/// the placeholder carries the identifier's hex rendering.
pub proof fn lemma_default_names_unique(a: Uid, b: Uid)
    requires
        a != b,
    ensures
        default_name(a@) != default_name(b@),
{
    if default_name(a@) == default_name(b@) {
        let p = "Unnamed-0x"@;
        let na = p + hex_digits(a@ as int);
        let nb = p + hex_digits(b@ as int);
        assert(hex_digits(a@ as int) =~= na.subrange(p.len() as int, na.len() as int));
        assert(hex_digits(b@ as int) =~= nb.subrange(p.len() as int, nb.len() as int));
        lemma_hex_digits_injective(a@ as int, b@ as int);
        assert(a == b);
    }
}

/// Law: snapshots are deterministic.
///
/// Two snapshots of the same registry state for the same identifier carry
/// equal record values, so reading twice without an intervening mutation
/// observes no difference.
pub proof fn lemma_snapshot_idempotent(m: Map<Uid, RecordView>, id: Uid, r1: RecordView, r2: RecordView)
    requires
        r1 == record_or_default(m, id),
        r2 == record_or_default(m, id),
    ensures
        r1 == r2,
{
}

} // verus!
