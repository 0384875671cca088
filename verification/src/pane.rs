//! A tmux pane as a handler sees it: the options that were read when the hook
//! fired, and the writes that the handler has issued since.

use vstd::prelude::*;

verus! {

/// The pane options that the handlers read and write.
#[derive(Clone, Copy, Debug, PartialEq, Eq, Structural)]
pub enum PaneOption {
    /// Which agent runs in the pane.
    Agent,
    /// What the sidebar shows for the pane: `running`, `waiting`, `background`,
    /// `idle` or `error`.
    Status,
    /// Why the pane asks for attention.
    Attention,
    /// What a `waiting` pane waits for.
    WaitReason,
    /// When the current run started.
    StartedAt,
    /// Non-empty while the parent's turn is open.
    TurnActive,
    /// The live children, as `type:id` entries separated by commas.
    Subagents,
    /// The command of a live background shell.
    BgCmd,
    /// The body of a completion notification that waits for the last child.
    PendingStopNotificationBody,
    /// The working directory.
    Cwd,
    /// The name of the pane's worktree.
    WorktreeName,
    /// The branch of the pane's worktree.
    WorktreeBranch,
    /// Non-empty while a worktree teardown waits for the last child.
    PendingWorktreeRemove,
    /// Marker of a deferred session teardown. No handler records one.
    PendingSessionEnd,
}

/// The options of a pane: an option that is not set is not in the map.
pub type OptionMap = Map<PaneOption, Seq<char>>;

/// One write to a pane option: `Some` sets it, `None` unsets it.
#[derive(Debug)]
pub struct OptionWrite {
    pub option: PaneOption,
    pub value: Option<String>,
}

/// `OptionWrite` with the value as a sequence of characters.
pub struct WriteView {
    pub option: PaneOption,
    pub value: Option<Seq<char>>,
}

impl View for OptionWrite {
    type V = WriteView;

    open spec fn view(&self) -> WriteView {
        WriteView {
            option: self.option,
            value: match self.value {
                Some(v) => Some(v@),
                None => None,
            },
        }
    }
}

/// The write that sets `option` to `value`.
pub open spec fn set_to(option: PaneOption, value: Seq<char>) -> WriteView {
    WriteView { option, value: Some(value) }
}

/// The write that unsets `option`.
pub open spec fn unset(option: PaneOption) -> WriteView {
    WriteView { option, value: None }
}

/// The options after one write.
pub open spec fn apply_write(options: OptionMap, write: WriteView) -> OptionMap {
    match write.value {
        Some(v) => options.insert(write.option, v),
        None => options.remove(write.option),
    }
}

/// The options after `writes`, carried out in order.
pub open spec fn apply_writes(options: OptionMap, writes: Seq<WriteView>) -> OptionMap
    decreases writes.len(),
{
    if writes.len() == 0 {
        options
    } else {
        apply_write(apply_writes(options, writes.drop_last()), writes.last())
    }
}

/// What a read of `option` gives: an option that is not set reads as empty.
pub open spec fn value_of(options: OptionMap, option: PaneOption) -> Seq<char> {
    if options.contains_key(option) {
        options[option]
    } else {
        Seq::empty()
    }
}

/// The options that a snapshot stands for. Where it names an option twice, the
/// later value counts.
pub open spec fn snapshot_options(snapshot: Seq<(PaneOption, String)>) -> OptionMap
    decreases snapshot.len(),
{
    if snapshot.len() == 0 {
        Map::empty()
    } else {
        snapshot_options(snapshot.drop_last()).insert(snapshot.last().0, snapshot.last().1@)
    }
}

/// Writes carried out in two batches are the writes carried out in one.
pub proof fn apply_writes_in_batches(
    options: OptionMap,
    first: Seq<WriteView>,
    second: Seq<WriteView>,
)
    ensures
        apply_writes(options, first + second) == apply_writes(apply_writes(options, first), second),
    decreases second.len(),
{
    if second.len() == 0 {
        assert(first + second =~= first);
    } else {
        assert((first + second).drop_last() =~= first + second.drop_last());
        apply_writes_in_batches(options, first, second.drop_last());
    }
}

/// An option that no write names stays as it was: set to the same text, or not
/// set.
pub proof fn unwritten_option_stays(
    options: OptionMap,
    writes: Seq<WriteView>,
    option: PaneOption,
)
    requires
        forall|j: int| 0 <= j < writes.len() ==> (#[trigger] writes[j]).option != option,
    ensures
        apply_writes(options, writes).contains_key(option) <==> options.contains_key(option),
        options.contains_key(option) ==> apply_writes(options, writes)[option] == options[option],
    decreases writes.len(),
{
    if writes.len() > 0 {
        let front = writes.drop_last();
        assert forall|j: int| 0 <= j < front.len() implies (#[trigger] front[j]).option
            != option by {
            assert(front[j] == writes[j]);
        }
        unwritten_option_stays(options, front, option);
        assert(writes[writes.len() - 1].option != option);
    }
}

/// The last write that names an option decides: a text is there as it was
/// written, and an unset option is gone.
pub proof fn last_write_decides(
    options: OptionMap,
    writes: Seq<WriteView>,
    option: PaneOption,
    i: int,
)
    requires
        0 <= i < writes.len(),
        writes[i].option == option,
        forall|j: int| i < j < writes.len() ==> (#[trigger] writes[j]).option != option,
    ensures
        apply_writes(options, writes).contains_key(option) <==> writes[i].value is Some,
        writes[i].value matches Some(v) ==> apply_writes(options, writes)[option] == v,
    decreases writes.len(),
{
    let front = writes.drop_last();
    if i < front.len() {
        assert forall|j: int| i < j < front.len() implies (#[trigger] front[j]).option
            != option by {
            assert(front[j] == writes[j]);
        }
        last_write_decides(options, front, option, i);
        assert(writes[writes.len() - 1].option != option);
    }
}

/// An option that a snapshot does not name is not set.
pub proof fn option_outside_the_snapshot_is_not_set(
    snapshot: Seq<(PaneOption, String)>,
    option: PaneOption,
)
    requires
        forall|j: int| 0 <= j < snapshot.len() ==> (#[trigger] snapshot[j]).0 != option,
    ensures
        !snapshot_options(snapshot).contains_key(option),
    decreases snapshot.len(),
{
    if snapshot.len() > 0 {
        let front = snapshot.drop_last();
        assert forall|j: int| 0 <= j < front.len() implies (#[trigger] front[j]).0 != option by {
            assert(front[j] == snapshot[j]);
        }
        option_outside_the_snapshot_is_not_set(front, option);
        assert(snapshot[snapshot.len() - 1].0 != option);
    }
}

/// An option that a snapshot names is set to the whole text that its last
/// mention gives.
pub proof fn last_mention_in_the_snapshot_counts(
    snapshot: Seq<(PaneOption, String)>,
    option: PaneOption,
    i: int,
)
    requires
        0 <= i < snapshot.len(),
        snapshot[i].0 == option,
        forall|j: int| i < j < snapshot.len() ==> (#[trigger] snapshot[j]).0 != option,
    ensures
        snapshot_options(snapshot).contains_key(option),
        snapshot_options(snapshot)[option] == snapshot[i].1@,
    decreases snapshot.len(),
{
    let front = snapshot.drop_last();
    if i < front.len() {
        assert forall|j: int| i < j < front.len() implies (#[trigger] front[j]).0 != option by {
            assert(front[j] == snapshot[j]);
        }
        last_mention_in_the_snapshot_counts(front, option, i);
        assert(snapshot[snapshot.len() - 1].0 != option);
    }
}

/// A read of an option that is set gives the stored text, whole and unchanged,
/// and a read of one that is not set gives nothing.
pub proof fn read_gives_the_stored_text(options: OptionMap, option: PaneOption)
    ensures
        options.contains_key(option) ==> value_of(options, option) == options[option],
        !options.contains_key(option) ==> value_of(options, option).len() == 0,
{
}

/// What is set is read back, and what is unset reads as nothing. No other option
/// is touched by either.
pub proof fn read_gives_back_a_write(
    options: OptionMap,
    option: PaneOption,
    text: Seq<char>,
    other: PaneOption,
)
    ensures
        value_of(apply_write(options, set_to(option, text)), option) == text,
        value_of(apply_write(options, unset(option)), option).len() == 0,
        !apply_write(options, unset(option)).contains_key(option),
        other != option ==> {
            &&& value_of(apply_write(options, set_to(option, text)), other) == value_of(
                options,
                other,
            )
            &&& value_of(apply_write(options, unset(option)), other) == value_of(options, other)
        },
{
}

/// The model of a write has the write's option and its whole text.
pub proof fn write_is_modelled_as_it_is(write: OptionWrite, text: Seq<char>)
    ensures
        write@.option == write.option,
        write@.value is Some <==> write.value is Some,
        write.value matches Some(v) ==> write@.value == Some(v@),
        set_to(write.option, text) == (WriteView { option: write.option, value: Some(text) }),
        unset(write.option) == (WriteView { option: write.option, value: None }),
{
}

/// A pane reads as the options that were loaded, changed by the writes in their
/// order, and more writes come behind those that are there.
pub proof fn pane_reads_through_its_writes(pane: PaneView, more: Seq<WriteView>)
    ensures
        pane.options() == apply_writes(pane.loaded, pane.writes),
        pane.after(more).id == pane.id,
        pane.after(more).loaded == pane.loaded,
        pane.after(more).writes == pane.writes + more,
        pane.after(more).options() == apply_writes(pane.options(), more),
{
    apply_writes_in_batches(pane.loaded, pane.writes, more);
}

/// A pane during one hook: its id, the options read when the hook fired, and
/// the writes issued since. Reads see the writes.
pub struct Pane {
    id: String,
    snapshot: Vec<(PaneOption, String)>,
    writes: Vec<OptionWrite>,
}

/// The model of a `Pane`.
#[verifier::ext_equal]
pub struct PaneView {
    pub id: Seq<char>,
    pub loaded: OptionMap,
    pub writes: Seq<WriteView>,
}

impl PaneView {
    /// The options as a read sees them now: what was loaded, after the writes.
    pub open spec fn options(self) -> OptionMap {
        apply_writes(self.loaded, self.writes)
    }

    /// The pane after `more` writes.
    pub open spec fn after(self, more: Seq<WriteView>) -> PaneView {
        PaneView { writes: self.writes + more, ..self }
    }
}

impl View for Pane {
    type V = PaneView;

    closed spec fn view(&self) -> PaneView {
        PaneView {
            id: self.id@,
            loaded: snapshot_options(self.snapshot@),
            writes: self.writes@.map_values(|w: OptionWrite| w@),
        }
    }
}

impl Pane {
    /// The pane `id` with the options in `snapshot`, and no write issued yet.
    pub fn load(id: &str, snapshot: Vec<(PaneOption, String)>) -> (pane: Pane)
        ensures
            pane@.id == id@,
            pane@.loaded == snapshot_options(snapshot@),
            pane@.writes == Seq::<WriteView>::empty(),
            pane@.options() == snapshot_options(snapshot@),
    {
        let pane = Pane { id: id.to_owned(), snapshot, writes: Vec::new() };
        assert(pane@.writes =~= Seq::<WriteView>::empty());
        pane
    }

    /// The pane's id.
    pub fn id(&self) -> (id: &str)
        ensures
            id@ == self@.id,
    {
        self.id.as_str()
    }

    /// The writes issued so far, in order.
    pub fn writes(&self) -> (writes: &Vec<OptionWrite>)
        ensures
            writes@.map_values(|w: OptionWrite| w@) == self@.writes,
    {
        &self.writes
    }

    /// The value of `option`, or `None` where it is not set.
    pub fn get(&self, option: PaneOption) -> (value: Option<String>)
        ensures
            value is Some <==> self@.options().contains_key(option),
            value matches Some(v) ==> v@ == self@.options()[option],
    {
        let ghost writes = self@.writes;
        let ghost loaded = self@.loaded;
        let mut i: usize = self.writes.len();
        assert(writes.take(i as int) =~= writes);
        while i > 0
            invariant
                i <= self.writes@.len(),
                writes == self.writes@.map_values(|w: OptionWrite| w@),
                loaded == snapshot_options(self.snapshot@),
                self@.options() == apply_writes(loaded, writes),
                self@.options().contains_key(option) == apply_writes(
                    loaded,
                    writes.take(i as int),
                ).contains_key(option),
                self@.options().contains_key(option) ==> self@.options()[option] == apply_writes(
                    loaded,
                    writes.take(i as int),
                )[option],
            decreases i,
        {
            let ghost prefix = writes.take(i as int);
            i = i - 1;
            assert(prefix.drop_last() =~= writes.take(i as int));
            assert(prefix.last() == self.writes@[i as int]@);
            if self.writes[i].option == option {
                return self.writes[i].value.clone();
            }
        }
        let mut j: usize = self.snapshot.len();
        assert(writes.take(0) =~= Seq::<WriteView>::empty());
        assert(self.snapshot@.take(j as int) =~= self.snapshot@);
        while j > 0
            invariant
                j <= self.snapshot@.len(),
                self@.options().contains_key(option) == snapshot_options(
                    self.snapshot@.take(j as int),
                ).contains_key(option),
                self@.options().contains_key(option) ==> self@.options()[option]
                    == snapshot_options(self.snapshot@.take(j as int))[option],
            decreases j,
        {
            let ghost prefix = self.snapshot@.take(j as int);
            j = j - 1;
            assert(prefix.drop_last() =~= self.snapshot@.take(j as int));
            if self.snapshot[j].0 == option {
                return Some(self.snapshot[j].1.clone());
            }
        }
        assert(self.snapshot@.take(0) =~= Seq::<(PaneOption, String)>::empty());
        None
    }

    /// The value of `option`, empty where it is not set.
    pub fn value(&self, option: PaneOption) -> (value: String)
        ensures
            value@ == value_of(self@.options(), option),
            self@.options().contains_key(option) ==> value@ == self@.options()[option],
            !self@.options().contains_key(option) ==> value@.len() == 0,
    {
        match self.get(option) {
            Some(v) => v,
            None => String::new(),
        }
    }

    /// Set `option` to `value`.
    pub fn set(&mut self, option: PaneOption, value: &str)
        ensures
            final(self)@ == old(self)@.after(seq![set_to(option, value@)]),
            final(self)@.id == old(self)@.id,
            final(self)@.loaded == old(self)@.loaded,
            final(self)@.writes == old(self)@.writes.push(
                WriteView { option, value: Some(value@) },
            ),
            final(self)@.options() == old(self)@.options().insert(option, value@),
    {
        let ghost before = self@;
        self.writes.push(OptionWrite { option, value: Some(value.to_owned()) });
        assert(self@.writes =~= before.writes.push(set_to(option, value@)));
        assert(self@.writes.drop_last() =~= before.writes);
        assert(self@ =~= before.after(seq![set_to(option, value@)]));
    }

    /// Unset `option`. The write is issued whether or not the option is set.
    pub fn unset(&mut self, option: PaneOption)
        ensures
            final(self)@ == old(self)@.after(seq![unset(option)]),
            final(self)@.id == old(self)@.id,
            final(self)@.loaded == old(self)@.loaded,
            final(self)@.writes == old(self)@.writes.push(WriteView { option, value: None }),
            final(self)@.options() == old(self)@.options().remove(option),
    {
        let ghost before = self@;
        self.writes.push(OptionWrite { option, value: None });
        assert(self@.writes =~= before.writes.push(unset(option)));
        assert(self@.writes.drop_last() =~= before.writes);
        assert(self@ =~= before.after(seq![unset(option)]));
    }
}

} // verus!
