use vstd::prelude::*;
use crate::entry::DirEntry;

verus! {

/// What the enumerator asks of its driver next.
#[derive(PartialEq, Eq, Structural, Clone, Copy, Debug)]
pub enum EnumAction {
    /// Test the current entry's name against the search expression, then
    /// report `EnumEvent::Matched`.
    Test,
    /// Put the current entry into the directory-entry buffer, then report how
    /// that went.
    Fill,
    /// The pass is over: the buffer is full or the sequence is exhausted.
    Done,
}

/// The outcome of the work that the last `EnumAction` asked for.
#[derive(PartialEq, Eq, Structural, Clone, Copy, Debug)]
pub enum EnumEvent {
    /// The current entry's name does (`true`) or does not match.
    Matched(bool),
    /// The current entry was added to the buffer.
    Filled,
    /// The buffer has no room for the current entry; it is offered again on
    /// the next pass.
    BufferFull,
    /// The buffer refused the entry's name; the entry is skipped.
    NameRejected,
}

/// A paginated cursor over a listing fixed at creation.
///
/// A pass starts with `get_dir_enum` and continues with `step`, one event
/// for each action, until the action is `Done`. The cursor only moves past
/// an entry once it did not match, was filled, or was rejected; an entry
/// that found the buffer full stays current for the next pass.
pub struct SimpleDirEnumerator {
    start: Vec<DirEntry>,
    cur: usize,
    awaiting: EnumAction,
    /// The entries filled since the listing last started from the top.
    filled: Ghost<Seq<DirEntry>>,
    /// The match answer given for each entry the cursor has passed since then.
    answers: Ghost<Seq<bool>>,
    /// Whether the buffer refused a name since then.
    refused: Ghost<bool>,
}

/// The entries of `entries[0..hi]` whose match answer was `true`, in order.
pub open spec fn chosen(entries: Seq<DirEntry>, answers: Seq<bool>, hi: int) -> Seq<DirEntry>
    decreases hi,
{
    if hi <= 0 {
        Seq::empty()
    } else {
        let rest = chosen(entries, answers, hi - 1);
        if answers[hi - 1] {
            rest.push(entries[hi - 1])
        } else {
            rest
        }
    }
}

/// The entries of `entries[lo..hi]` whose names satisfy `m`, in order.
pub open spec fn listing_between(
    entries: Seq<DirEntry>,
    m: spec_fn(Seq<char>) -> bool,
    lo: int,
    hi: int,
) -> Seq<DirEntry>
    decreases hi - lo,
{
    if hi <= lo {
        Seq::empty()
    } else {
        let rest = listing_between(entries, m, lo, hi - 1);
        if m(entries[hi - 1].name@) {
            rest.push(entries[hi - 1])
        } else {
            rest
        }
    }
}

/// The full listing of `entries` under the match predicate `m`.
pub open spec fn listing(entries: Seq<DirEntry>, m: spec_fn(Seq<char>) -> bool) -> Seq<DirEntry> {
    listing_between(entries, m, 0, entries.len() as int)
}

/// The listing delivered by consecutive passes whose cursors stood at
/// `cuts[0]`, `cuts[1]`, ...: the page of each pass, joined in order.
pub open spec fn pages(
    entries: Seq<DirEntry>,
    m: spec_fn(Seq<char>) -> bool,
    cuts: Seq<int>,
) -> Seq<DirEntry>
    decreases cuts.len(),
{
    if cuts.len() < 2 {
        Seq::empty()
    } else {
        pages(entries, m, cuts.drop_last()) + listing_between(
            entries,
            m,
            cuts[cuts.len() - 2],
            cuts[cuts.len() - 1],
        )
    }
}

/// The action that follows once the cursor stands at `cur`.
pub open spec fn next_action(cur: int, len: int) -> EnumAction {
    if cur < len {
        EnumAction::Test
    } else {
        EnumAction::Done
    }
}

/// The events that answer `action`.
pub open spec fn answers(action: EnumAction, event: EnumEvent) -> bool {
    match action {
        EnumAction::Test => event is Matched,
        EnumAction::Fill => !(event is Matched),
        EnumAction::Done => false,
    }
}

impl SimpleDirEnumerator {
    pub closed spec fn entries(&self) -> Seq<DirEntry> {
        self.start@
    }

    pub closed spec fn cursor(&self) -> int {
        self.cur as int
    }

    /// The action whose outcome the enumerator waits for (`Done` between passes).
    pub closed spec fn awaiting(&self) -> EnumAction {
        self.awaiting
    }

    pub closed spec fn filled(&self) -> Seq<DirEntry> {
        self.filled@
    }

    pub closed spec fn answers(&self) -> Seq<bool> {
        self.answers@
    }

    pub closed spec fn refused(&self) -> bool {
        self.refused@
    }

    pub open spec fn wf(&self) -> bool {
        &&& 0 <= self.cursor() <= self.entries().len()
        &&& self.awaiting() != EnumAction::Done ==> self.cursor() < self.entries().len()
        &&& self.answers().len() == self.cursor()
        &&& !self.refused() ==> self.filled() == chosen(
            self.entries(),
            self.answers(),
            self.cursor(),
        )
    }

    /// An enumerator over `entries`, its cursor at the first entry.
    pub fn new(entries: Vec<DirEntry>) -> (r: SimpleDirEnumerator)
        ensures
            r.wf(),
            r.entries() == entries@,
            r.cursor() == 0,
            r.awaiting() == EnumAction::Done,
            r.filled() == Seq::<DirEntry>::empty(),
            !r.refused(),
    {
        SimpleDirEnumerator {
            start: entries,
            cur: 0,
            awaiting: EnumAction::Done,
            filled: Ghost(Seq::empty()),
            answers: Ghost(Seq::empty()),
            refused: Ghost(false),
        }
    }

    /// The entry under the cursor, if the sequence is not exhausted.
    pub fn current(&self) -> (r: Option<&DirEntry>)
        requires
            self.wf(),
        ensures
            self.cursor() < self.entries().len() ==> r == Some(&self.entries()[self.cursor()]),
            self.cursor() >= self.entries().len() ==> r is None,
    {
        if self.cur < self.start.len() {
            Some(&self.start[self.cur])
        } else {
            None
        }
    }

    /// The action that waits for an event (`Done` between passes).
    pub fn awaited(&self) -> (r: EnumAction)
        ensures
            r == self.awaiting(),
    {
        self.awaiting
    }

    /// Starts a pass. With `restart` the cursor goes back to the first entry;
    /// otherwise the pass resumes where the previous one stopped.
    pub fn get_dir_enum(&mut self, restart: bool) -> (r: EnumAction)
        requires
            old(self).wf(),
        ensures
            final(self).wf(),
            final(self).entries() == old(self).entries(),
            final(self).cursor() == if restart { 0 } else { old(self).cursor() },
            r == next_action(final(self).cursor(), final(self).entries().len() as int),
            final(self).awaiting() == r,
            restart ==> forall|m: spec_fn(Seq<char>) -> bool|
                #[trigger] listing_between(
                    final(self).entries(),
                    m,
                    final(self).cursor(),
                    final(self).entries().len() as int,
                ) == listing(old(self).entries(), m),
            restart ==> final(self).filled() == Seq::<DirEntry>::empty() && !final(self).refused()
                && final(self).answers() == Seq::<bool>::empty(),
            !restart ==> final(self).filled() == old(self).filled() && final(self).refused()
                == old(self).refused() && final(self).answers() == old(self).answers(),
    {
        if restart {
            self.cur = 0;
            self.filled = Ghost(Seq::empty());
            self.answers = Ghost(Seq::empty());
            self.refused = Ghost(false);
        }
        self.awaiting = self.action_at_cursor();
        self.awaiting
    }

    fn action_at_cursor(&self) -> (r: EnumAction)
        requires
            self.wf(),
        ensures
            r == next_action(self.cursor(), self.entries().len() as int),
    {
        if self.cur < self.start.len() {
            EnumAction::Test
        } else {
            EnumAction::Done
        }
    }

    /// Takes the outcome of the awaited action and returns the next action.
    pub fn step(&mut self, event: EnumEvent) -> (r: EnumAction)
        requires
            old(self).wf(),
            answers(old(self).awaiting(), event),
        ensures
            final(self).wf(),
            final(self).entries() == old(self).entries(),
            final(self).awaiting() == r,
            ({
                let (c, len) = (old(self).cursor(), old(self).entries().len() as int);
                match event {
                    EnumEvent::Matched(true) => final(self).cursor() == c && r == EnumAction::Fill,
                    EnumEvent::BufferFull => final(self).cursor() == c && r == EnumAction::Done,
                    _ => final(self).cursor() == c + 1 && r == next_action(c + 1, len),
                }
            }),
            ({
                let e = old(self).entries()[old(self).cursor()];
                match event {
                    EnumEvent::Filled => final(self).filled() == old(self).filled().push(e),
                    _ => final(self).filled() == old(self).filled(),
                }
            }),
            final(self).refused() == (old(self).refused() || event == EnumEvent::NameRejected),
            final(self).answers() == match event {
                EnumEvent::Matched(false) => old(self).answers().push(false),
                EnumEvent::Filled | EnumEvent::NameRejected => old(self).answers().push(true),
                _ => old(self).answers(),
            },
    {
        match event {
            EnumEvent::Matched(true) => {
                self.awaiting = EnumAction::Fill;
            },
            EnumEvent::BufferFull => {
                self.awaiting = EnumAction::Done;
            },
            _ => {
                assert(self.cur < self.start.len());
                let ghost e = self.start@[self.cur as int];
                let ghost answer = event != EnumEvent::Matched(false);
                proof {
                    let (c, a0) = (self.cur as int, self.answers@);
                    assert(a0.push(answer).subrange(0, c) =~= a0);
                    lemma_chosen_prefix(self.start@, a0, a0.push(answer), c);
                }
                self.answers = Ghost(self.answers@.push(answer));
                if event == EnumEvent::Filled {
                    self.filled = Ghost(self.filled@.push(e));
                }
                if event == EnumEvent::NameRejected {
                    self.refused = Ghost(true);
                }
                self.awaiting = EnumAction::Done;
                self.cur = self.cur + 1;
                self.awaiting = self.action_at_cursor();
            },
        }
        self.awaiting
    }
}

proof fn lemma_chosen_prefix(entries: Seq<DirEntry>, a: Seq<bool>, b: Seq<bool>, hi: int)
    requires
        0 <= hi <= a.len(),
        hi <= b.len(),
        forall|i: int| 0 <= i < hi ==> a[i] == b[i],
    ensures
        chosen(entries, a, hi) == chosen(entries, b, hi),
    decreases hi,
{
    if hi > 0 {
        lemma_chosen_prefix(entries, a, b, hi - 1);
    }
}

proof fn lemma_chosen_is_listing(
    entries: Seq<DirEntry>,
    answers: Seq<bool>,
    m: spec_fn(Seq<char>) -> bool,
    hi: int,
)
    requires
        0 <= hi <= answers.len(),
        forall|i: int| 0 <= i < hi ==> answers[i] == m(#[trigger] entries[i].name@),
    ensures
        chosen(entries, answers, hi) == listing_between(entries, m, 0, hi),
    decreases hi,
{
    if hi > 0 {
        lemma_chosen_is_listing(entries, answers, m, hi - 1);
        assert(answers[hi - 1] == m(entries[hi - 1].name@));
    }
}

/// Whatever the buffer's room on each pass, the passes since the listing
/// last started from the top have together filled the listing up to the
/// cursor, each entry once and in order, provided each match answer was the
/// search expression's verdict `m` on the name and no name was refused. Once
/// the cursor is at the end, that is the whole listing.
pub proof fn lemma_passes_fill_listing(e: SimpleDirEnumerator, m: spec_fn(Seq<char>) -> bool)
    requires
        e.wf(),
        !e.refused(),
        forall|i: int| 0 <= i < e.cursor() ==> e.answers()[i] == m(#[trigger] e.entries()[i].name@),
    ensures
        e.filled() == listing_between(e.entries(), m, 0, e.cursor()),
        e.cursor() == e.entries().len() ==> e.filled() == listing(e.entries(), m),
{
    lemma_chosen_is_listing(e.entries(), e.answers(), m, e.cursor());
}

/// Two adjacent pages of a listing join into the page that spans both.
pub proof fn lemma_listing_split(
    entries: Seq<DirEntry>,
    m: spec_fn(Seq<char>) -> bool,
    lo: int,
    mid: int,
    hi: int,
)
    requires
        lo <= mid <= hi,
    ensures
        listing_between(entries, m, lo, mid) + listing_between(entries, m, mid, hi)
            == listing_between(entries, m, lo, hi),
    decreases hi - mid,
{
    if hi == mid {
        assert(listing_between(entries, m, lo, mid) + listing_between(entries, m, mid, hi)
            =~= listing_between(entries, m, lo, mid));
    } else {
        lemma_listing_split(entries, m, lo, mid, hi - 1);
        let (a, b) = (listing_between(entries, m, lo, mid), listing_between(entries, m, mid, hi - 1));
        if m(entries[hi - 1].name@) {
            assert(a + b.push(entries[hi - 1]) =~= (a + b).push(entries[hi - 1]));
        }
    }
}

/// What remains to list from cursor `c` is the entry under the cursor, if
/// its name matches, followed by what remains from the next position: so
/// skipping an unmatched entry loses nothing, and filling a matched one
/// delivers the head of what remains.
pub proof fn lemma_listing_step(entries: Seq<DirEntry>, m: spec_fn(Seq<char>) -> bool, c: int)
    requires
        0 <= c < entries.len(),
    ensures
        listing_between(entries, m, c, entries.len() as int) == (if m(entries[c].name@) {
            seq![entries[c]]
        } else {
            Seq::empty()
        }) + listing_between(entries, m, c + 1, entries.len() as int),
{
    lemma_listing_split(entries, m, c, c + 1, entries.len() as int);
    assert(listing_between(entries, m, c, c) =~= Seq::<DirEntry>::empty());
    if m(entries[c].name@) {
        assert(listing_between(entries, m, c, c + 1) =~= seq![entries[c]]);
    }
}

/// Passes that follow one another without a restart, wherever the buffer
/// cut them, together deliver the whole listing once: no entry twice, none
/// left out.
pub proof fn lemma_pages_cover_listing(
    entries: Seq<DirEntry>,
    m: spec_fn(Seq<char>) -> bool,
    cuts: Seq<int>,
)
    requires
        cuts.len() >= 1,
        cuts[0] == 0,
        cuts[cuts.len() - 1] == entries.len(),
        forall|i: int| 0 <= i < cuts.len() - 1 ==> cuts[i] <= #[trigger] cuts[i + 1],
    ensures
        pages(entries, m, cuts) == listing(entries, m),
{
    lemma_pages_prefix(entries, m, cuts);
}

proof fn lemma_pages_prefix(entries: Seq<DirEntry>, m: spec_fn(Seq<char>) -> bool, cuts: Seq<int>)
    requires
        cuts.len() >= 1,
        cuts[0] == 0,
        forall|i: int| 0 <= i < cuts.len() - 1 ==> cuts[i] <= #[trigger] cuts[i + 1],
    ensures
        pages(entries, m, cuts) == listing_between(entries, m, 0, cuts[cuts.len() - 1]),
    decreases cuts.len(),
{
    if cuts.len() == 1 {
        assert(pages(entries, m, cuts) =~= listing_between(entries, m, 0, 0));
    } else {
        let init = cuts.drop_last();
        assert forall|i: int| 0 <= i < init.len() - 1 implies init[i] <= #[trigger] init[i + 1] by {
            assert(cuts[i] <= cuts[i + 1]);
        }
        lemma_pages_prefix(entries, m, init);
        let (a, b) = (cuts[cuts.len() - 2], cuts[cuts.len() - 1]);
        assert(a <= b) by {
            assert(cuts[cuts.len() - 2] <= cuts[cuts.len() - 2 + 1]);
        }
        lemma_cut_nonneg(cuts, cuts.len() - 2);
        lemma_listing_split(entries, m, 0, a, b);
    }
}

proof fn lemma_cut_nonneg(cuts: Seq<int>, k: int)
    requires
        cuts.len() >= 1,
        cuts[0] == 0,
        0 <= k < cuts.len(),
        forall|i: int| 0 <= i < cuts.len() - 1 ==> cuts[i] <= #[trigger] cuts[i + 1],
    ensures
        0 <= cuts[k],
    decreases k,
{
    if k > 0 {
        lemma_cut_nonneg(cuts, k - 1);
        assert(cuts[k - 1] <= cuts[k - 1 + 1]);
    }
}

/// A search expression that every name matches lists every entry, in order.
pub proof fn lemma_listing_all(entries: Seq<DirEntry>, m: spec_fn(Seq<char>) -> bool)
    requires
        forall|i: int| 0 <= i < entries.len() ==> m(#[trigger] entries[i].name@),
    ensures
        listing(entries, m) == entries,
{
    lemma_listing_all_prefix(entries, m, entries.len() as int);
    assert(entries.subrange(0, entries.len() as int) =~= entries);
}

proof fn lemma_listing_all_prefix(entries: Seq<DirEntry>, m: spec_fn(Seq<char>) -> bool, hi: int)
    requires
        0 <= hi <= entries.len(),
        forall|i: int| 0 <= i < entries.len() ==> m(#[trigger] entries[i].name@),
    ensures
        listing_between(entries, m, 0, hi) == entries.subrange(0, hi),
    decreases hi,
{
    if hi == 0 {
        assert(entries.subrange(0, 0) =~= Seq::<DirEntry>::empty());
    } else {
        lemma_listing_all_prefix(entries, m, hi - 1);
        assert(m(entries[hi - 1].name@));
        assert(entries.subrange(0, hi - 1).push(entries[hi - 1]) =~= entries.subrange(0, hi));
    }
}

/// A search expression that no name matches lists nothing.
pub proof fn lemma_listing_none(entries: Seq<DirEntry>, m: spec_fn(Seq<char>) -> bool)
    requires
        forall|i: int| 0 <= i < entries.len() ==> !m(#[trigger] entries[i].name@),
    ensures
        listing(entries, m) == Seq::<DirEntry>::empty(),
{
    lemma_listing_none_prefix(entries, m, entries.len() as int);
}

proof fn lemma_listing_none_prefix(entries: Seq<DirEntry>, m: spec_fn(Seq<char>) -> bool, hi: int)
    requires
        0 <= hi <= entries.len(),
        forall|i: int| 0 <= i < entries.len() ==> !m(#[trigger] entries[i].name@),
    ensures
        listing_between(entries, m, 0, hi) == Seq::<DirEntry>::empty(),
    decreases hi,
{
    if hi > 0 {
        lemma_listing_none_prefix(entries, m, hi - 1);
        assert(!m(entries[hi - 1].name@));
    }
}

} // verus!
