//! Which keys are held, and which of them sounds.
//!
//! The synthesizer plays one note at a time. The last key that went down sounds; when it goes up
//! the one before it sounds again. While the sustain pedal is down, keys that go up sound on
//! until the pedal is released.

use vstd::prelude::*;

verus! {

/// `heapless::Vec`: a vector of at most `N` items that is stored in place.
#[verifier::external_type_specification]
#[verifier::external_body]
#[verifier::reject_recursive_types(T)]
pub struct ExHeaplessVec<T, const N: usize>(heapless::Vec<T, N>);

/// The items of a vector, in order.
pub uninterp spec fn held(v: heapless::Vec<u8, 16>) -> Seq<u8>;

/// `heapless::Vec::new`: a vector without items.
#[verifier::external_body]
fn vec_new() -> (v: heapless::Vec<u8, 16>)
    ensures
        held(v) == Seq::<u8>::empty(),
{
    heapless::Vec::new()
}

/// `heapless::Vec::push`: adds `item` behind the others unless 16 are there already; then the
/// item is handed back.
#[verifier::external_body]
fn vec_push(v: &mut heapless::Vec<u8, 16>, item: u8) -> (r: Result<(), u8>)
    ensures
        r is Ok <==> held(*old(v)).len() < 16,
        held(*final(v)) == if r is Ok {
            held(*old(v)).push(item)
        } else {
            held(*old(v))
        },
        r matches Err(back) ==> back == item,
{
    v.push(item)
}

/// `heapless::Vec::remove`: takes item `index` out; those behind it move up. The outside function
/// panics where there is no such item.
#[verifier::external_body]
fn vec_remove(v: &mut heapless::Vec<u8, 16>, index: usize) -> (item: u8)
    requires
        index < held(*old(v)).len(),
    ensures
        item == held(*old(v))[index as int],
        held(*final(v)) == held(*old(v)).remove(index as int),
{
    v.remove(index)
}

/// `heapless::Vec::clear`: takes all items out.
#[verifier::external_body]
fn vec_clear(v: &mut heapless::Vec<u8, 16>)
    ensures
        held(*final(v)) == Seq::<u8>::empty(),
{
    v.clear()
}

/// `heapless::Vec::as_slice`: the items in order, of which there are never more than 16.
#[verifier::external_body]
fn vec_as_slice(v: &heapless::Vec<u8, 16>) -> (items: &[u8])
    ensures
        items@ == held(*v),
        items@.len() <= 16,
{
    v.as_slice()
}

/// The keys and pedals.
#[verifier::ext_equal]
pub struct Keys {
    /// The notes that sound or would sound, the one that went down last at the end.
    pub notes: Seq<u8>,
    /// The notes whose keys went up while the sustain pedal was down.
    pub pending_off: Seq<u8>,
    pub sustain: bool,
    pub soft_pedal: bool,
}

/// No note is held twice, only held notes wait for the pedal, and none waits unless it is down.
pub open spec fn keys_wf(k: Keys) -> bool {
    &&& k.notes.no_duplicates()
    &&& k.notes.len() <= 16
    &&& k.pending_off.no_duplicates()
    &&& forall|n: u8| k.pending_off.contains(n) ==> #[trigger] k.notes.contains(n)
    &&& !k.sustain ==> k.pending_off.len() == 0
}

pub open spec fn other_than(note: u8) -> spec_fn(u8) -> bool {
    |n: u8| n != note
}

pub open spec fn not_in(gone: Seq<u8>) -> spec_fn(u8) -> bool {
    |n: u8| !gone.contains(n)
}

/// `notes` without `note`.
pub open spec fn without(notes: Seq<u8>, note: u8) -> Seq<u8> {
    notes.filter(other_than(note))
}

/// `notes` without those in `gone`.
pub open spec fn without_all(notes: Seq<u8>, gone: Seq<u8>) -> Seq<u8> {
    notes.filter(not_in(gone))
}

/// A key goes down. It no longer waits for the pedal; a note that is held already keeps its place,
/// and a seventeenth note is passed over.
pub open spec fn key_down(k: Keys, note: u8) -> Keys {
    Keys {
        notes: if k.notes.contains(note) || k.notes.len() >= 16 {
            k.notes
        } else {
            k.notes.push(note)
        },
        pending_off: without(k.pending_off, note),
        ..k
    }
}

/// A key goes up. With the sustain pedal down the note is kept until the pedal is released.
pub open spec fn key_up(k: Keys, note: u8) -> Keys {
    if k.sustain {
        if k.notes.contains(note) && !k.pending_off.contains(note) {
            Keys { pending_off: k.pending_off.push(note), ..k }
        } else {
            k
        }
    } else {
        Keys { notes: without(k.notes, note), ..k }
    }
}

/// The sustain pedal goes down or up.
pub open spec fn pedal(k: Keys, down: bool) -> Keys {
    if down {
        Keys { sustain: true, ..k }
    } else {
        Keys {
            notes: without_all(k.notes, k.pending_off),
            pending_off: Seq::empty(),
            sustain: false,
            ..k
        }
    }
}

/// The note that sounds.
pub open spec fn sounding(k: Keys) -> Option<u8> {
    if k.notes.len() == 0 {
        None
    } else {
        Some(k.notes.last())
    }
}

/// The position of `note` in `notes`, if it is there.
fn position(notes: &[u8], note: u8) -> (at: Option<usize>)
    ensures
        at is Some <==> notes@.contains(note),
        at matches Some(i) ==> i < notes@.len() && notes@[i as int] == note,
{
    let mut i: usize = 0;
    while i < notes.len()
        invariant
            i <= notes@.len(),
            forall|j: int| 0 <= j < i ==> notes@[j] != note,
        decreases notes@.len() - i,
    {
        if notes[i] == note {
            return Some(i);
        }
        i += 1;
    }
    None
}

pub struct NoteStack {
    notes: heapless::Vec<u8, 16>,
    pending_off: heapless::Vec<u8, 16>,
    sustain_active: bool,
    soft_pedal_held: bool,
}

impl View for NoteStack {
    type V = Keys;

    closed spec fn view(&self) -> Keys {
        Keys {
            notes: held(self.notes),
            pending_off: held(self.pending_off),
            sustain: self.sustain_active,
            soft_pedal: self.soft_pedal_held,
        }
    }
}

impl NoteStack {
    pub open spec fn wf(&self) -> bool {
        keys_wf(self@)
    }

    pub fn new() -> (stack: Self)
        ensures
            stack.wf(),
            stack@ == (Keys {
                notes: Seq::empty(),
                pending_off: Seq::empty(),
                sustain: false,
                soft_pedal: false,
            }),
    {
        NoteStack {
            notes: vec_new(),
            pending_off: vec_new(),
            sustain_active: false,
            soft_pedal_held: false,
        }
    }

    /// Notes whether the soft pedal is down, and says whether it was just released.
    pub fn soft_pedal(&mut self, pressed: bool) -> (released: bool)
        ensures
            released == (old(self)@.soft_pedal && !pressed),
            final(self)@ == (Keys { soft_pedal: pressed, ..old(self)@ }),
    {
        let released: bool = self.soft_pedal_held && !pressed;
        self.soft_pedal_held = pressed;
        released
    }

    pub fn note_on(&mut self, note: u8)
        requires
            old(self).wf(),
        ensures
            final(self).wf(),
            final(self)@ == key_down(old(self)@, note),
    {
        proof {
            key_down_keeps(self@, note);
        }
        match position(vec_as_slice(&self.pending_off), note) {
            Some(pos) => {
                proof {
                    remove_is_without(self@.pending_off, pos as int);
                }
                vec_remove(&mut self.pending_off, pos);
            },
            None => {
                proof {
                    absent_is_without(self@.pending_off, note);
                }
            },
        }
        if position(vec_as_slice(&self.notes), note).is_none() {
            let _ = vec_push(&mut self.notes, note);
        }
    }

    pub fn note_off(&mut self, note: u8)
        requires
            old(self).wf(),
        ensures
            final(self).wf(),
            final(self)@ == key_up(old(self)@, note),
    {
        proof {
            key_up_keeps(self@, note);
        }
        if self.sustain_active {
            if position(vec_as_slice(&self.notes), note).is_some() && position(
                vec_as_slice(&self.pending_off),
                note,
            ).is_none() {
                proof {
                    waiting_fits(self@, note);
                }
                let _ = vec_push(&mut self.pending_off, note);
            }
        } else {
            match position(vec_as_slice(&self.notes), note) {
                Some(pos) => {
                    proof {
                        remove_is_without(self@.notes, pos as int);
                    }
                    vec_remove(&mut self.notes, pos);
                },
                None => {
                    proof {
                        absent_is_without(self@.notes, note);
                    }
                },
            }
        }
    }

    pub fn set_sustain(&mut self, active: bool)
        requires
            old(self).wf(),
        ensures
            final(self).wf(),
            final(self)@ == pedal(old(self)@, active),
    {
        proof {
            pedal_keeps(self@, active);
        }
        self.sustain_active = active;
        if !active {
            let ghost gone = self@.pending_off;
            let ghost all = self@.notes;
            let mut i: usize = 0;
            proof {
                filter_all(all, not_in(gone.take(0)));
            }
            while i < vec_as_slice(&self.pending_off).len()
                invariant
                    i <= gone.len(),
                    held(self.pending_off) == gone,
                    all.no_duplicates(),
                    held(self.notes) == without_all(all, gone.take(i as int)),
                    self.sustain_active == active,
                    self.soft_pedal_held == old(self).soft_pedal_held,
                decreases gone.len() - i,
            {
                let note: u8 = vec_as_slice(&self.pending_off)[i];
                let ghost left = held(self.notes);
                proof {
                    filter_keeps_unique(all, not_in(gone.take(i as int)));
                    without_one_more(all, gone, i as int);
                }
                match position(vec_as_slice(&self.notes), note) {
                    Some(pos) => {
                        proof {
                            remove_is_without(left, pos as int);
                        }
                        vec_remove(&mut self.notes, pos);
                    },
                    None => {
                        proof {
                            absent_is_without(left, note);
                        }
                    },
                }
                i += 1;
            }
            assert(gone.take(gone.len() as int) =~= gone);
            vec_clear(&mut self.pending_off);
        }
    }

    /// Lets go of every note and of the sustain pedal.
    pub fn clear(&mut self)
        ensures
            final(self).wf(),
            final(self)@ == (Keys {
                notes: Seq::empty(),
                pending_off: Seq::empty(),
                sustain: false,
                soft_pedal: old(self)@.soft_pedal,
            }),
    {
        vec_clear(&mut self.notes);
        vec_clear(&mut self.pending_off);
        self.sustain_active = false;
    }

    /// The note that sounds.
    pub fn active_note(&self) -> (note: Option<u8>)
        ensures
            note == sounding(self@),
    {
        let notes = vec_as_slice(&self.notes);
        if notes.len() == 0 {
            None
        } else {
            Some(notes[notes.len() - 1])
        }
    }
}

proof fn filter_all(s: Seq<u8>, keep: spec_fn(u8) -> bool)
    requires
        forall|i: int| 0 <= i < s.len() ==> keep(#[trigger] s[i]),
    ensures
        s.filter(keep) == s,
    decreases s.len(),
{
    reveal(Seq::filter);
    if s.len() > 0 {
        filter_all(s.drop_last(), keep);
        assert(s =~= s.drop_last().push(s.last()));
    }
}

/// Filtering keeps exactly the items that satisfy the test.
proof fn filter_contains(s: Seq<u8>, keep: spec_fn(u8) -> bool, x: u8)
    ensures
        s.filter(keep).contains(x) <==> s.contains(x) && keep(x),
    decreases s.len(),
{
    reveal(Seq::filter);
    if s.len() > 0 {
        let front = s.drop_last();
        let last = s.last();
        filter_contains(front, keep, x);
        assert(s =~= front.push(last));
        push_contains(front, last, x);
        push_contains(front.filter(keep), last, x);
    }
}

proof fn push_contains(s: Seq<u8>, last: u8, x: u8)
    ensures
        s.push(last).contains(x) <==> s.contains(x) || x == last,
{
    if s.contains(x) {
        let i = choose|i: int| 0 <= i < s.len() && s[i] == x;
        assert(s.push(last)[i] == x);
    }
    if x == last {
        assert(s.push(last)[s.len() as int] == x);
    }
}

proof fn filter_keeps_unique(s: Seq<u8>, keep: spec_fn(u8) -> bool)
    requires
        s.no_duplicates(),
    ensures
        s.filter(keep).no_duplicates(),
        s.filter(keep).len() <= s.len(),
    decreases s.len(),
{
    reveal(Seq::filter);
    if s.len() > 0 {
        let front = s.drop_last();
        let last = s.last();
        filter_keeps_unique(front, keep);
        filter_contains(front, keep, last);
        assert(!front.contains(last));
    }
}

proof fn remove_is_without(s: Seq<u8>, at: int)
    requires
        s.no_duplicates(),
        0 <= at < s.len(),
    ensures
        s.remove(at) == without(s, s[at]),
    decreases s.len(),
{
    reveal(Seq::filter);
    let keep = other_than(s[at]);
    let front = s.drop_last();
    if at == s.len() - 1 {
        filter_all(front, keep);
        assert(s.remove(at) =~= front);
    } else {
        remove_is_without(front, at);
        assert(s.remove(at) =~= front.remove(at).push(s.last()));
    }
}

proof fn absent_is_without(s: Seq<u8>, note: u8)
    requires
        !s.contains(note),
    ensures
        without(s, note) == s,
{
    assert forall|i: int| 0 <= i < s.len() implies #[trigger] s[i] != note by {
        assert(s.contains(s[i]));
    }
    filter_all(s, other_than(note));
}

/// Taking the notes of `gone` out one by one: the next one.
proof fn without_one_more(s: Seq<u8>, gone: Seq<u8>, i: int)
    requires
        0 <= i < gone.len(),
    ensures
        without(without_all(s, gone.take(i)), gone[i]) == without_all(s, gone.take(i + 1)),
    decreases s.len(),
{
    reveal(Seq::filter);
    if s.len() > 0 {
        let front = s.drop_last();
        let last = s.last();
        without_one_more(front, gone, i);
        assert(gone.take(i + 1) =~= gone.take(i).push(gone[i]));
        push_contains(gone.take(i), gone[i], last);
        let kept = without_all(front, gone.take(i));
        if !gone.take(i).contains(last) {
            assert(kept.push(last).drop_last() =~= kept);
        }
    }
}

/// Notes that wait for the pedal are fewer than the notes held, if one that is held does not wait.
proof fn waiting_fits(k: Keys, note: u8)
    requires
        keys_wf(k),
        k.notes.contains(note),
        !k.pending_off.contains(note),
    ensures
        k.pending_off.len() < k.notes.len(),
{
    let waiting = k.pending_off.to_set();
    let all = k.notes.to_set();
    k.pending_off.unique_seq_to_set();
    k.notes.unique_seq_to_set();
    assert(waiting.subset_of(all.remove(note)));
    vstd::set_lib::lemma_len_subset(waiting, all.remove(note));
}

/// A key that goes down leaves the keys in order.
pub proof fn key_down_keeps(k: Keys, note: u8)
    requires
        keys_wf(k),
    ensures
        keys_wf(key_down(k, note)),
{
    let after = key_down(k, note);
    filter_keeps_unique(k.pending_off, other_than(note));
    assert forall|n: u8| after.pending_off.contains(n) implies #[trigger] after.notes.contains(
        n,
    ) by {
        filter_contains(k.pending_off, other_than(note), n);
        push_contains(k.notes, note, n);
    }
}

/// A key that goes up leaves the keys in order.
pub proof fn key_up_keeps(k: Keys, note: u8)
    requires
        keys_wf(k),
    ensures
        keys_wf(key_up(k, note)),
{
    let after = key_up(k, note);
    if k.sustain {
        if k.notes.contains(note) && !k.pending_off.contains(note) {
            waiting_fits(k, note);
            assert forall|n: u8| after.pending_off.contains(
                n,
            ) implies #[trigger] after.notes.contains(n) by {
                push_contains(k.pending_off, note, n);
            }
        }
    } else {
        filter_keeps_unique(k.notes, other_than(note));
    }
}

/// A pedal that moves leaves the keys in order.
pub proof fn pedal_keeps(k: Keys, down: bool)
    requires
        keys_wf(k),
    ensures
        keys_wf(pedal(k, down)),
{
    filter_keeps_unique(k.notes, not_in(k.pending_off));
}

/// The key that went down last sounds.
pub proof fn last_key_sounds(k: Keys, note: u8)
    requires
        keys_wf(k),
        !k.notes.contains(note),
        k.notes.len() < 16,
    ensures
        sounding(key_down(k, note)) == Some(note),
{
}

/// A key that goes down and up again leaves everything as it was, so that the note before it
/// sounds again.
pub proof fn key_down_and_up(k: Keys, note: u8)
    requires
        keys_wf(k),
        !k.sustain,
        !k.notes.contains(note),
    ensures
        key_up(key_down(k, note), note) == k,
{
    reveal(Seq::filter);
    absent_is_without(k.notes, note);
    absent_is_without(k.pending_off, note);
    if k.notes.len() < 16 {
        assert(k.notes.push(note).drop_last() =~= k.notes);
    }
}

/// While the sustain pedal is down no note stops.
pub proof fn sustain_holds(k: Keys, note: u8)
    requires
        k.sustain,
    ensures
        key_up(k, note).notes == k.notes,
        sounding(key_up(k, note)) == sounding(k),
{
}

/// A key that goes up under the pedal stops when the pedal is released, as if it had gone up then.
pub proof fn sustain_defers(k: Keys, note: u8)
    requires
        keys_wf(k),
        !k.sustain,
    ensures
        pedal(key_up(pedal(k, true), note), false) == key_up(k, note),
{
    let down = key_up(pedal(k, true), note);
    assert(k.pending_off =~= Seq::empty());
    if k.notes.contains(note) {
        assert(down.pending_off =~= seq![note]);
        assert forall|n: u8| #[trigger] not_in(down.pending_off)(n) == other_than(note)(n) by {
            push_contains(Seq::empty(), note, n);
            assert(Seq::<u8>::empty().push(note) =~= seq![note]);
        }
        assert(not_in(down.pending_off) =~= other_than(note));
    } else {
        absent_is_without(k.notes, note);
        filter_all(k.notes, not_in(down.pending_off));
    }
    assert(pedal(down, false) =~= key_up(k, note));
}

/// A key that goes down again under the pedal keeps its note after the pedal is released.
pub proof fn replayed_key_is_kept(k: Keys, note: u8)
    requires
        keys_wf(k),
        k.notes.contains(note),
    ensures
        pedal(key_down(k, note), false).notes.contains(note),
{
    let after = key_down(k, note);
    filter_contains(k.pending_off, other_than(note), note);
    filter_contains(after.notes, not_in(after.pending_off), note);
}

/// `x` stands in `all` in front of `y`.
pub open spec fn stands_before(all: Seq<u8>, x: u8, y: u8) -> bool {
    exists|a: int, b: int|
        #![trigger all[a], all[b]]
        0 <= a < b < all.len() && all[a] == x && all[b] == y
}

/// Any two notes of `part` stand in `all` in the same order.
pub open spec fn in_order(part: Seq<u8>, all: Seq<u8>) -> bool {
    forall|i: int, j: int|
        0 <= i < j < part.len() ==> #[trigger] stands_before(all, part[i], part[j])
}

proof fn filter_in_order(s: Seq<u8>, keep: spec_fn(u8) -> bool)
    ensures
        in_order(s.filter(keep), s),
    decreases s.len(),
{
    reveal(Seq::filter);
    if s.len() > 0 {
        let front = s.drop_last();
        let last = s.last();
        let kept = front.filter(keep);
        let part = s.filter(keep);
        filter_in_order(front, keep);
        assert forall|i: int, j: int|
            0 <= i < j < part.len() implies #[trigger] stands_before(s, part[i], part[j]) by {
            if j < kept.len() {
                assert(kept[i] == part[i] && kept[j] == part[j]);
                assert(stands_before(front, kept[i], kept[j]));
                let (a, b) = choose|a: int, b: int|
                    #![trigger front[a], front[b]]
                    0 <= a < b < front.len() && front[a] == kept[i] && front[b] == kept[j];
                assert(s[a] == part[i] && s[b] == part[j]);
            } else {
                assert(kept[i] == part[i]);
                filter_contains(front, keep, kept[i]);
                assert(kept.contains(kept[i]));
                let a = choose|a: int| 0 <= a < front.len() && front[a] == kept[i];
                let b = s.len() - 1;
                assert(s[a] == part[i] && s[b] == part[j]);
            }
        }
    } else {
        assert(s.filter(keep).len() == 0);
    }
}

/// A key that goes down is held behind all others, unless it is held already or sixteen are. No
/// other note comes or goes. The key no longer waits for the pedal; all others that wait go on
/// waiting, in their order.
pub proof fn key_goes_down(k: Keys, note: u8)
    requires
        keys_wf(k),
    ensures
        ({
            let after = key_down(k, note);
            &&& (k.notes.contains(note) || k.notes.len() == 16) ==> after.notes == k.notes
            &&& !k.notes.contains(note) && k.notes.len() < 16 ==> after.notes == k.notes + seq![
                note,
            ]
            &&& forall|n: u8| #[trigger]
                after.pending_off.contains(n) <==> k.pending_off.contains(n) && n != note
            &&& in_order(after.pending_off, k.pending_off)
            &&& after.sustain == k.sustain
            &&& after.soft_pedal == k.soft_pedal
        }),
{
    let after = key_down(k, note);
    assert(k.notes.push(note) =~= k.notes + seq![note]);
    filter_in_order(k.pending_off, other_than(note));
    assert forall|n: u8| #[trigger]
        after.pending_off.contains(n) <==> k.pending_off.contains(n) && n != note by {
        filter_contains(k.pending_off, other_than(note), n);
    }
}

/// With the sustain pedal up, a key that goes up takes exactly its own note away, and the others
/// stay in their order. With the pedal down no note goes; a note that is held waits from then on.
pub proof fn key_goes_up(k: Keys, note: u8)
    requires
        keys_wf(k),
    ensures
        ({
            let after = key_up(k, note);
            &&& !k.sustain ==> forall|n: u8| #[trigger]
                after.notes.contains(n) <==> k.notes.contains(n) && n != note
            &&& !k.sustain ==> in_order(after.notes, k.notes) && after.notes.no_duplicates()
            &&& !k.sustain ==> after.pending_off == k.pending_off
            &&& k.sustain ==> after.notes == k.notes
            &&& k.sustain ==> forall|n: u8| #[trigger]
                after.pending_off.contains(n) <==> k.pending_off.contains(n) || (n == note
                    && k.notes.contains(n))
            &&& after.sustain == k.sustain
            &&& after.soft_pedal == k.soft_pedal
        }),
{
    let after = key_up(k, note);
    key_up_keeps(k, note);
    if k.sustain {
        assert forall|n: u8| #[trigger]
            after.pending_off.contains(n) <==> k.pending_off.contains(n) || (n == note
                && k.notes.contains(n)) by {
            push_contains(k.pending_off, note, n);
        }
    } else {
        filter_in_order(k.notes, other_than(note));
        assert forall|n: u8| #[trigger]
            after.notes.contains(n) <==> k.notes.contains(n) && n != note by {
            filter_contains(k.notes, other_than(note), n);
        }
    }
}

/// A sustain pedal that goes down changes no note. One that goes up takes exactly the notes away
/// whose keys went up under it, and the others stay in their order; none waits any longer.
pub proof fn pedal_moves(k: Keys)
    requires
        keys_wf(k),
    ensures
        ({
            let down = pedal(k, true);
            let up = pedal(k, false);
            &&& down.notes == k.notes
            &&& down.pending_off == k.pending_off
            &&& down.sustain
            &&& forall|n: u8| #[trigger]
                up.notes.contains(n) <==> k.notes.contains(n) && !k.pending_off.contains(n)
            &&& in_order(up.notes, k.notes)
            &&& up.notes.no_duplicates()
            &&& up.pending_off.len() == 0
            &&& !up.sustain
            &&& down.soft_pedal == k.soft_pedal
            &&& up.soft_pedal == k.soft_pedal
        }),
{
    let up = pedal(k, false);
    pedal_keeps(k, false);
    filter_in_order(k.notes, not_in(k.pending_off));
    assert forall|n: u8| #[trigger]
        up.notes.contains(n) <==> k.notes.contains(n) && !k.pending_off.contains(n) by {
        filter_contains(k.notes, not_in(k.pending_off), n);
    }
}

/// A note sounds exactly while one is held, and it is the one that went down last: no other held
/// note stands behind it.
pub proof fn last_held_sounds(k: Keys)
    ensures
        sounding(k) is None <==> k.notes.len() == 0,
        sounding(k) matches Some(n) ==> k.notes[k.notes.len() - 1] == n,
{
}

} // verus!
