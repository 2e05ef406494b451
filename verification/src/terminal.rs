use vstd::prelude::*;

use crate::agent::EnvVar;
use crate::agent::EnvVarView;
use crate::events::BusEvent;
use crate::events::BusEventView;
use crate::events::TerminalOutput;
use crate::events::TerminalOutputView;
use crate::ids::fresh_id;
use crate::registry::RegistryError;
use crate::text::str_eq;

verus! {

/// The width a terminal is created with when the request names none.
pub fn default_cols() -> (r: u16)
    ensures
        r == 80,
{
    80
}

/// The height a terminal is created with when the request names none.
pub fn default_rows() -> (r: u16)
    ensures
        r == 24,
{
    24
}

/// One terminal session as the registry sees it: its identity, working
/// directory and current size. The PTY pair, the spawned shell and the
/// reader task live with the host, keyed by this id; exactly one reader
/// is started per created entry.
pub struct TerminalEntry {
    pub id: String,
    pub working_dir: String,
    pub cols: u16,
    pub rows: u16,
}

/// The mathematical value of a `TerminalEntry`.
#[verifier::ext_equal]
pub struct TerminalEntryView {
    pub id: Seq<char>,
    pub working_dir: Seq<char>,
    pub cols: u16,
    pub rows: u16,
}

impl View for TerminalEntry {
    type V = TerminalEntryView;

    open spec fn view(&self) -> TerminalEntryView {
        TerminalEntryView {
            id: self.id@,
            working_dir: self.working_dir@,
            cols: self.cols,
            rows: self.rows,
        }
    }
}

/// No two entries of the sequence bear the same id.
pub open spec fn terminal_ids_unique(entries: Seq<TerminalEntry>) -> bool {
    forall|i: int, j: int| 0 <= i < j < entries.len() ==> entries[i].id@ != entries[j].id@
}

/// Whether some entry of the sequence bears the given id.
pub open spec fn terminals_contain_id(entries: Seq<TerminalEntry>, id: Seq<char>) -> bool {
    exists|i: int| 0 <= i < entries.len() && entries[i].id@ == id
}

/// The index of the entry bearing the given id.
pub open spec fn terminal_index_of(entries: Seq<TerminalEntry>, id: Seq<char>) -> int {
    choose|i: int| 0 <= i < entries.len() && entries[i].id@ == id
}

/// The views of a sequence of entries.
pub open spec fn terminals_view(entries: Seq<TerminalEntry>) -> Seq<TerminalEntryView> {
    entries.map_values(|e: TerminalEntry| e@)
}

proof fn lemma_terminal_unique_push(entries: Seq<TerminalEntry>, e: TerminalEntry)
    requires
        terminal_ids_unique(entries),
        !terminals_contain_id(entries, e.id@),
    ensures
        terminal_ids_unique(entries.push(e)),
{
    assert forall|i: int, j: int| 0 <= i < j < entries.push(e).len() implies entries.push(e)[i].id@
        != entries.push(e)[j].id@ by {
        if j == entries.len() {
            assert(entries.push(e)[i] == entries[i]);
            assert(!(entries[i].id@ == e.id@));
        }
    }
}

proof fn lemma_terminal_unique_remove(entries: Seq<TerminalEntry>, k: int)
    requires
        terminal_ids_unique(entries),
        0 <= k < entries.len(),
    ensures
        terminal_ids_unique(entries.remove(k)),
{
    let r = entries.remove(k);
    assert forall|i: int, j: int| 0 <= i < j < r.len() implies r[i].id@ != r[j].id@ by {
        let i0 = if i < k {
            i
        } else {
            i + 1
        };
        let j0 = if j < k {
            j
        } else {
            j + 1
        };
        assert(r[i] == entries[i0]);
        assert(r[j] == entries[j0]);
    }
}

proof fn lemma_terminal_unique_update_same_id(
    entries: Seq<TerminalEntry>,
    k: int,
    e: TerminalEntry,
)
    requires
        terminal_ids_unique(entries),
        0 <= k < entries.len(),
        e.id@ == entries[k].id@,
    ensures
        terminal_ids_unique(entries.update(k, e)),
{
    let u = entries.update(k, e);
    assert forall|i: int, j: int| 0 <= i < j < u.len() implies u[i].id@ != u[j].id@ by {
        assert(entries[i].id@ != entries[j].id@);
    }
}

/// In a well-formed sequence, the only index bearing `entries[k].id` is `k`.
proof fn lemma_terminal_index_found(entries: Seq<TerminalEntry>, k: int)
    requires
        terminal_ids_unique(entries),
        0 <= k < entries.len(),
    ensures
        terminal_index_of(entries, entries[k].id@) == k,
{
    let id = entries[k].id@;
    assert(terminals_contain_id(entries, id));
    let c = terminal_index_of(entries, id);
    assert(0 <= c < entries.len() && entries[c].id@ == id);
    if c < k {
        assert(entries[c].id@ != entries[k].id@);
    } else if k < c {
        assert(entries[k].id@ != entries[c].id@);
    }
}

/// The keyed collection of live terminal sessions. At any moment it
/// holds at most one entry per id; `create` refuses a duplicate.
pub struct TerminalRegistry {
    pub terminals: Vec<TerminalEntry>,
}

impl TerminalRegistry {
    /// The registry's invariant: terminal ids are unique.
    pub open spec fn wf(&self) -> bool {
        terminal_ids_unique(self.terminals@)
    }

    /// Whether an entry with the given id is present.
    pub open spec fn spec_contains(&self, id: Seq<char>) -> bool {
        terminals_contain_id(self.terminals@, id)
    }

    /// An empty registry.
    pub fn new() -> (r: TerminalRegistry)
        ensures
            r.wf(),
            r.terminals@.len() == 0,
    {
        TerminalRegistry { terminals: Vec::new() }
    }

    /// The index of the entry bearing `id`, if any.
    fn find_index(&self, id: &str) -> (r: Option<usize>)
        ensures
            match r {
                Some(i) => i < self.terminals@.len() && self.terminals@[i as int].id@ == id@,
                None => !self.spec_contains(id@),
            },
    {
        let mut i: usize = 0;
        while i < self.terminals.len()
            invariant
                i <= self.terminals@.len(),
                forall|j: int| 0 <= j < i ==> self.terminals@[j].id@ != id@,
            decreases self.terminals@.len() - i,
        {
            if str_eq(self.terminals[i].id.as_str(), id) {
                return Some(i);
            }
            i = i + 1;
        }
        None
    }

    /// Creates an entry under the given id, or under a freshly minted
    /// one, and returns the id. Fails, leaving the registry unchanged,
    /// exactly when the chosen id is already present.
    pub fn create(&mut self, id: Option<String>, working_dir: String, cols: u16, rows: u16) -> (r:
        Result<String, RegistryError>)
        requires
            old(self).wf(),
        ensures
            final(self).wf(),
            (id matches Some(given) ==> (r is Ok <==> !old(self).spec_contains(given@))),
            match r {
                Ok(chosen) => !old(self).spec_contains(chosen@) && (id matches Some(given)
                    ==> chosen@ == given@) && terminals_view(final(self).terminals@)
                    == terminals_view(old(self).terminals@).push(
                    TerminalEntryView { id: chosen@, working_dir: working_dir@, cols, rows },
                ),
                Err(e) => e == RegistryError::DuplicateId && *final(self) == *old(self)
                    && old(self).terminals@.len() > 0,
            },
    {
        let chosen: String = match id {
            Some(given) => given,
            None => fresh_id(),
        };
        if self.find_index(chosen.as_str()).is_some() {
            return Err(RegistryError::DuplicateId);
        }
        let entry = TerminalEntry { id: chosen.clone(), working_dir, cols, rows };
        proof {
            lemma_terminal_unique_push(self.terminals@, entry);
        }
        self.terminals.push(entry);
        proof {
            assert(terminals_view(self.terminals@) =~= terminals_view(old(self).terminals@).push(
                TerminalEntryView { id: chosen@, working_dir: working_dir@, cols, rows },
            ));
        }
        Ok(chosen)
    }

    /// The entry bearing `id`, if any.
    pub fn get(&self, id: &str) -> (r: Option<&TerminalEntry>)
        ensures
            r is Some <==> self.spec_contains(id@),
            match r {
                Some(e) => e.id@ == id@ && self.terminals@.contains(*e),
                None => true,
            },
    {
        match self.find_index(id) {
            Some(i) => {
                let e = &self.terminals[i];
                proof {
                    assert(self.terminals@.contains(self.terminals@[i as int]));
                }
                Some(e)
            },
            None => None,
        }
    }

    /// Removes the entry bearing `id`, so that no later lookup routes to
    /// it. Fails, leaving the registry unchanged, exactly when no entry
    /// bears the id. The host signals the reader's kill channel and
    /// terminates the shell of the removed entry.
    pub fn kill_terminal(&mut self, id: &str) -> (r: Result<TerminalEntry, RegistryError>)
        requires
            old(self).wf(),
        ensures
            final(self).wf(),
            r is Ok <==> old(self).spec_contains(id@),
            !final(self).spec_contains(id@),
            match r {
                Ok(e) => e.id@ == id@ && {
                    let k = terminal_index_of(old(self).terminals@, id@);
                    &&& 0 <= k < old(self).terminals@.len()
                    &&& old(self).terminals@[k] == e
                    &&& final(self).terminals@ == old(self).terminals@.remove(k)
                },
                Err(err) => err == RegistryError::NotFound && *final(self) == *old(self),
            },
    {
        match self.find_index(id) {
            Some(i) => {
                proof {
                    lemma_terminal_unique_remove(self.terminals@, i as int);
                    lemma_terminal_index_found(self.terminals@, i as int);
                }
                let e = self.terminals.remove(i);
                proof {
                    assert forall|j: int|
                        0 <= j < self.terminals@.len() implies self.terminals@[j].id@ != id@ by {
                        let j0 = if j < i as int {
                            j
                        } else {
                            j + 1
                        };
                        assert(self.terminals@[j] == old(self).terminals@[j0]);
                        if j0 < i as int {
                            assert(old(self).terminals@[j0].id@ != old(self).terminals@[
                                i as int].id@);
                        } else if (i as int) < j0 {
                            assert(old(self).terminals@[i as int].id@ != old(self).terminals@[
                                j0].id@);
                        }
                    }
                }
                Ok(e)
            },
            None => Err(RegistryError::NotFound),
        }
    }

    /// Records the new size of the entry bearing `id`; the host resizes
    /// the PTY itself. Fails exactly when no entry bears the id.
    pub fn resize(&mut self, id: &str, cols: u16, rows: u16) -> (r: Result<(), RegistryError>)
        requires
            old(self).wf(),
        ensures
            final(self).wf(),
            r is Ok <==> old(self).spec_contains(id@),
            match r {
                Ok(()) => {
                    let k = terminal_index_of(old(self).terminals@, id@);
                    &&& 0 <= k < old(self).terminals@.len()
                    &&& terminals_view(final(self).terminals@) == terminals_view(
                        old(self).terminals@,
                    ).update(k, TerminalEntryView { cols, rows, ..old(self).terminals@[k]@ })
                },
                Err(e) => e == RegistryError::NotFound && *final(self) == *old(self),
            },
    {
        match self.find_index(id) {
            Some(i) => {
                proof {
                    lemma_terminal_index_found(self.terminals@, i as int);
                }
                let mut e = self.terminals.remove(i);
                e.cols = cols;
                e.rows = rows;
                proof {
                    lemma_terminal_unique_update_same_id(old(self).terminals@, i as int, e);
                    assert(old(self).terminals@.remove(i as int).insert(i as int, e)
                        =~= old(self).terminals@.update(i as int, e));
                }
                self.terminals.insert(i, e);
                proof {
                    assert(terminals_view(self.terminals@) =~~= terminals_view(
                        old(self).terminals@,
                    ).update(
                        i as int,
                        TerminalEntryView { cols, rows, ..old(self).terminals@[i as int]@ },
                    ));
                }
                Ok(())
            },
            None => Err(RegistryError::NotFound),
        }
    }

    /// A snapshot of every entry's id and working directory.
    pub fn list(&self) -> (r: Vec<(String, String)>)
        ensures
            r@.len() == self.terminals@.len(),
            forall|i: int|
                0 <= i < r@.len() ==> #[trigger] r@[i].0@ == self.terminals@[i].id@ && r@[i].1@
                    == self.terminals@[i].working_dir@,
    {
        let mut r: Vec<(String, String)> = Vec::new();
        let mut i: usize = 0;
        while i < self.terminals.len()
            invariant
                i <= self.terminals@.len(),
                r@.len() == i,
                forall|j: int|
                    0 <= j < i ==> #[trigger] r@[j].0@ == self.terminals@[j].id@ && r@[j].1@
                        == self.terminals@[j].working_dir@,
            decreases self.terminals@.len() - i,
        {
            let e = &self.terminals[i];
            let entry = (e.id.clone(), e.working_dir.clone());
            r.push(entry);
            proof {
                assert(r@[i as int] == entry);
            }
            i = i + 1;
        }
        r
    }
}

/// What one reading of the PTY master produced.
pub enum ReadEvent {
    /// A chunk of bytes was read.
    Data(Vec<u8>),
    /// The master reported end of stream: the shell exited or the PTY
    /// was closed.
    Eof,
    /// The read would block; no data is available.
    WouldBlock,
    /// Any other read error.
    Failed,
}

/// The mathematical value of a `ReadEvent`.
#[verifier::ext_equal]
pub enum ReadEventView {
    Data(Seq<u8>),
    Eof,
    WouldBlock,
    Failed,
}

impl View for ReadEvent {
    type V = ReadEventView;

    open spec fn view(&self) -> ReadEventView {
        match self {
            ReadEvent::Data(v) => ReadEventView::Data(v@),
            ReadEvent::Eof => ReadEventView::Eof,
            ReadEvent::WouldBlock => ReadEventView::WouldBlock,
            ReadEvent::Failed => ReadEventView::Failed,
        }
    }
}

/// What the reader task does next.
pub enum ReaderAction {
    /// Publish a terminal-output event and keep reading.
    Publish(BusEvent),
    /// Sleep briefly to avoid spinning, then keep reading.
    Sleep,
    /// Exit the reader loop.
    Stop,
}

/// The mathematical value of a `ReaderAction`.
#[verifier::ext_equal]
pub enum ReaderActionView {
    Publish(BusEventView),
    Sleep,
    Stop,
}

impl View for ReaderAction {
    type V = ReaderActionView;

    open spec fn view(&self) -> ReaderActionView {
        match self {
            ReaderAction::Publish(e) => ReaderActionView::Publish(e@),
            ReaderAction::Sleep => ReaderActionView::Sleep,
            ReaderAction::Stop => ReaderActionView::Stop,
        }
    }
}

/// The characters that decoding the bytes as UTF-8 yields, with every
/// invalid sequence replaced; a function of the bytes alone.
pub uninterp spec fn lossy_utf8(bytes: Seq<u8>) -> Seq<char>;

/// Relies on `String::from_utf8_lossy`: decodes the bytes as UTF-8,
/// replacing invalid sequences with the replacement character; it never
/// fails, and its result depends on the bytes alone.
#[verifier::external_body]
pub(crate) fn utf8_lossy(bytes: &Vec<u8>) -> (r: String)
    ensures
        r@ == lossy_utf8(bytes@),
{
    String::from_utf8_lossy(bytes).to_string()
}

/// The reader's decision for one read outcome: a data chunk is decoded
/// lossily and published unless the kill channel has been signalled
/// between reads; a would-block error is waited out; end of stream, a
/// kill signal or any other error stops the reader.
pub open spec fn spec_reader_action(
    terminal_id: Seq<char>,
    ev: ReadEventView,
    kill_signaled: bool,
) -> ReaderActionView {
    match ev {
        ReadEventView::Data(bytes) => if kill_signaled {
            ReaderActionView::Stop
        } else {
            ReaderActionView::Publish(
                BusEventView::TerminalOutput(
                    TerminalOutputView { terminal_id, data: lossy_utf8(bytes) },
                ),
            )
        },
        ReadEventView::Eof => ReaderActionView::Stop,
        ReadEventView::WouldBlock => ReaderActionView::Sleep,
        ReadEventView::Failed => ReaderActionView::Stop,
    }
}

/// Decides one step of the reader loop.
pub fn reader_step(terminal_id: &str, ev: ReadEvent, kill_signaled: bool) -> (r: ReaderAction)
    ensures
        r@ == spec_reader_action(terminal_id@, ev@, kill_signaled),
{
    match ev {
        ReadEvent::Data(bytes) => {
            if kill_signaled {
                ReaderAction::Stop
            } else {
                let data = utf8_lossy(&bytes);
                ReaderAction::Publish(
                    BusEvent::TerminalOutput(
                        TerminalOutput { terminal_id: terminal_id.to_owned(), data },
                    ),
                )
            }
        },
        ReadEvent::Eof => ReaderAction::Stop,
        ReadEvent::WouldBlock => ReaderAction::Sleep,
        ReadEvent::Failed => ReaderAction::Stop,
    }
}

/// Once the kill channel has been signalled, a data chunk never reaches
/// the bus: the reader stops instead.
pub proof fn lemma_kill_stops_reader(terminal_id: Seq<char>, ev: ReadEventView)
    requires
        ev is Data,
    ensures
        spec_reader_action(terminal_id, ev, true) == ReaderActionView::Stop,
{
}

/// The shell the host spawns in the PTY: the login shell named by the
/// `SHELL` environment variable, with a fixed fallback.
pub open spec fn spec_shell_choice(shell_var: Option<Seq<char>>) -> Seq<char> {
    match shell_var {
        Some(s) => s,
        None => "/bin/bash"@,
    }
}

/// Picks the shell to spawn from the value of the `SHELL` environment
/// variable, which the host reads.
pub fn shell_choice(shell_var: Option<String>) -> (r: String)
    ensures
        r@ == spec_shell_choice(crate::text::opt_view(shell_var)),
{
    match shell_var {
        Some(s) => s,
        None => String::from_str("/bin/bash"),
    }
}

/// The environment a terminal's shell is spawned with.
pub open spec fn spec_shell_env() -> Seq<EnvVarView> {
    seq![
        EnvVarView { name: "TERM"@, value: "xterm-256color"@ },
        EnvVarView { name: "COLORTERM"@, value: "truecolor"@ },
    ]
}

/// The environment variables to set on a terminal's shell.
pub fn shell_env() -> (r: Vec<EnvVar>)
    ensures
        r@.map_values(|v: EnvVar| v@) == spec_shell_env(),
{
    let mut r: Vec<EnvVar> = Vec::new();
    r.push(EnvVar { name: String::from_str("TERM"), value: String::from_str("xterm-256color") });
    r.push(
        EnvVar { name: String::from_str("COLORTERM"), value: String::from_str("truecolor") },
    );
    proof {
        assert(r@.map_values(|v: EnvVar| v@) =~~= spec_shell_env());
    }
    r
}

} // verus!
