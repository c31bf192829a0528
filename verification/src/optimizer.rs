//! The state of the utility and how it moves on.

use vstd::prelude::*;

use crate::clock::{clock_text, format_time};
use crate::memory::{
    free_mb, is_purge_due, known_standby_mb, law_purge_due_by_thresholds,
    law_unknown_standby_counts_nothing, purge_due, standby_or_zero,
};
use crate::sort_key::SortColumn;

verus! {

/// The pages of the window.
#[derive(Clone, Copy, Debug, PartialEq, Eq, Structural)]
pub enum ActiveTab {
    Processes,
    MemoryCleaner,
}

/// Everything the user can set and see, but for what the system reports.
#[derive(Debug)]
pub struct OptimizerApp {
    pub search_query: String,
    pub active_tab: ActiveTab,
    pub purge_at_standby_mb: u64,
    pub purge_at_free_mb: u64,
    pub polling_rate_ms: u64,
    pub last_status: String,
    pub is_auto_purge_enabled: bool,
    pub sort_column: SortColumn,
    pub sort_ascending: bool,
    /// When the figures were last refreshed, in nanoseconds since the start.
    pub last_refresh_ns: u128,
}

/// What an `OptimizerApp` stands for.
pub struct AppState {
    pub search_query: Seq<char>,
    pub active_tab: ActiveTab,
    pub purge_at_standby_mb: u64,
    pub purge_at_free_mb: u64,
    pub polling_rate_ms: u64,
    pub last_status: Seq<char>,
    pub is_auto_purge_enabled: bool,
    pub sort_column: SortColumn,
    pub sort_ascending: bool,
    pub last_refresh_ns: u128,
}

impl View for OptimizerApp {
    type V = AppState;

    open spec fn view(&self) -> AppState {
        AppState {
            search_query: self.search_query@,
            active_tab: self.active_tab,
            purge_at_standby_mb: self.purge_at_standby_mb,
            purge_at_free_mb: self.purge_at_free_mb,
            polling_rate_ms: self.polling_rate_ms,
            last_status: self.last_status@,
            is_auto_purge_enabled: self.is_auto_purge_enabled,
            sort_column: self.sort_column,
            sort_ascending: self.sort_ascending,
            last_refresh_ns: self.last_refresh_ns,
        }
    }
}

/// What the window has to do next while it brings itself up to date.
#[derive(Clone, Copy, Debug, PartialEq, Eq, Structural)]
pub enum UpdateAction {
    /// Ask the system for the processes and the processor usage.
    RefreshProcesses,
    /// Ask the system for the memory figures.
    RefreshMemory,
    /// Find out how much memory is available and how large the standby list is.
    ReadMemory,
    /// Flush the standby list.
    PurgeStandbyList,
    /// Draw the page that is open.
    Draw,
}

/// What has happened while the window brings itself up to date.
#[derive(Debug)]
pub enum UpdateEvent {
    /// A new frame begins, so many nanoseconds after the start.
    FrameStarted { now_ns: u128 },
    /// The figures have been refreshed.
    Refreshed,
    /// The available bytes and the size of the standby list in megabytes.
    MemoryRead { avail_phys: u64, standby: Result<u64, String> },
    /// The standby list has been flushed, or not.
    Purged { outcome: Result<(), String> },
}

/// Whether the figures are to be refreshed: two whole seconds have passed since
/// they last were.
pub open spec fn refresh_due(last_refresh_ns: u128, now_ns: u128) -> bool {
    now_ns - last_refresh_ns >= 2_000_000_000
}

/// The status line for an automatic purge.
pub open spec fn auto_purge_text(outcome: Result<(), String>) -> Seq<char> {
    match outcome {
        Ok(_) => "Auto-purged successfully."@,
        Err(error) => "Auto-purge Error: "@ + error@,
    }
}

/// What to do once the figures are fresh: see to the memory if purging is
/// automatic.
pub open spec fn after_refresh(state: AppState) -> UpdateAction {
    if state.is_auto_purge_enabled {
        UpdateAction::ReadMemory
    } else {
        UpdateAction::Draw
    }
}

/// What an event makes the window do next.
pub open spec fn next_action(state: AppState, event: UpdateEvent) -> UpdateAction {
    match event {
        UpdateEvent::FrameStarted { now_ns } => if refresh_due(state.last_refresh_ns, now_ns) {
            match state.active_tab {
                ActiveTab::Processes => UpdateAction::RefreshProcesses,
                ActiveTab::MemoryCleaner => UpdateAction::RefreshMemory,
            }
        } else {
            after_refresh(state)
        },
        UpdateEvent::Refreshed => after_refresh(state),
        UpdateEvent::MemoryRead { avail_phys, standby } => if state.is_auto_purge_enabled
            && purge_due(
            avail_phys as nat,
            known_standby_mb(standby),
            state.purge_at_standby_mb as nat,
            state.purge_at_free_mb as nat,
        ) {
            UpdateAction::PurgeStandbyList
        } else {
            UpdateAction::Draw
        },
        UpdateEvent::Purged { .. } => UpdateAction::Draw,
    }
}

/// The state after an event.
pub open spec fn next_state(state: AppState, event: UpdateEvent) -> AppState {
    match event {
        UpdateEvent::FrameStarted { now_ns } => if refresh_due(state.last_refresh_ns, now_ns) {
            AppState { last_refresh_ns: now_ns, ..state }
        } else {
            state
        },
        UpdateEvent::Purged { outcome } => AppState {
            last_status: auto_purge_text(outcome),
            ..state
        },
        _ => state,
    }
}

/// The state after a click on the head of a column.
pub open spec fn header_clicked_state(state: AppState, column: SortColumn) -> AppState {
    if state.sort_column == column {
        AppState { sort_ascending: !state.sort_ascending, ..state }
    } else {
        AppState { sort_column: column, sort_ascending: false, ..state }
    }
}

/// The status line for a purge by hand, done at a time of day.
pub open spec fn manual_purge_text(
    outcome: Result<(), String>,
    hour: nat,
    minute: nat,
    second: nat,
) -> Seq<char> {
    match outcome {
        Ok(_) => "Purged at "@ + clock_text(hour, minute, second),
        Err(error) => "Error: "@ + error@,
    }
}

/// The status line for a new timer resolution, which is given written out in
/// milliseconds.
pub open spec fn timer_text(outcome: Result<String, String>) -> Seq<char> {
    match outcome {
        Ok(milliseconds) => "Timer set to "@ + milliseconds@ + " ms"@,
        Err(error) => "Timer Error: "@ + error@,
    }
}

/// The name at the head of a column.
pub open spec fn column_caption(column: SortColumn) -> Seq<char> {
    match column {
        SortColumn::Pid => "PID"@,
        SortColumn::Name => "Name"@,
        SortColumn::Cpu => "CPU"@,
        SortColumn::Ram => "RAM"@,
        SortColumn::Disk => "Disk (R / W)"@,
    }
}

/// What stands at the head of a column: its name, and behind that of the sorted
/// column an arrow for the direction.
pub open spec fn column_head(state: AppState, column: SortColumn) -> Seq<char> {
    if state.sort_column != column {
        column_caption(column)
    } else if state.sort_ascending {
        column_caption(column) + " ⏶"@
    } else {
        column_caption(column) + " ⏷"@
    }
}

/// Words the outcome of a purge by hand, done at a time of day.
pub fn manual_purge_status(
    outcome: &Result<(), String>,
    hour: u32,
    minute: u32,
    second: u32,
) -> (status: String)
    requires
        outcome is Ok ==> hour < 24 && minute < 60 && second < 60,
    ensures
        status@ == manual_purge_text(*outcome, hour as nat, minute as nat, second as nat),
{
    match outcome {
        Ok(_) => {
            let mut status: String = "Purged at ".to_owned();
            status.append(format_time(hour, minute, second).as_str());
            status
        },
        Err(error) => {
            let mut status: String = "Error: ".to_owned();
            status.append(error.as_str());
            status
        },
    }
}

impl Default for OptimizerApp {
    /// The state on first open, refreshed at the start.
    fn default() -> (app: Self)
        ensures
            app@ == (AppState {
                search_query: Seq::empty(),
                active_tab: ActiveTab::Processes,
                purge_at_standby_mb: 1024,
                purge_at_free_mb: 1024,
                polling_rate_ms: 500,
                last_status: "Ready"@,
                is_auto_purge_enabled: false,
                sort_column: SortColumn::Ram,
                sort_ascending: false,
                last_refresh_ns: 0,
            }),
    {
        OptimizerApp {
            search_query: String::new(),
            active_tab: ActiveTab::Processes,
            purge_at_standby_mb: 1024,
            purge_at_free_mb: 1024,
            polling_rate_ms: 500,
            last_status: "Ready".to_owned(),
            is_auto_purge_enabled: false,
            sort_column: SortColumn::Ram,
            sort_ascending: false,
            last_refresh_ns: 0,
        }
    }
}

impl OptimizerApp {
    fn action_after_refresh(&self) -> (action: UpdateAction)
        ensures
            action == after_refresh(self@),
    {
        if self.is_auto_purge_enabled {
            UpdateAction::ReadMemory
        } else {
            UpdateAction::Draw
        }
    }

    /// Takes in what has happened and says what to do next. A frame begins with
    /// `FrameStarted`; each action but `Draw` is answered with the event it led to,
    /// and with `Draw` the window is up to date.
    pub fn update(&mut self, event: UpdateEvent) -> (action: UpdateAction)
        ensures
            action == next_action(old(self)@, event),
            final(self)@ == next_state(old(self)@, event),
    {
        match event {
            UpdateEvent::FrameStarted { now_ns } => {
                if now_ns >= self.last_refresh_ns && (now_ns - self.last_refresh_ns) / 1_000_000_000
                    >= 2 {
                    self.last_refresh_ns = now_ns;
                    match self.active_tab {
                        ActiveTab::Processes => UpdateAction::RefreshProcesses,
                        ActiveTab::MemoryCleaner => UpdateAction::RefreshMemory,
                    }
                } else {
                    self.action_after_refresh()
                }
            },
            UpdateEvent::Refreshed => self.action_after_refresh(),
            UpdateEvent::MemoryRead { avail_phys, standby } => {
                if self.is_auto_purge_enabled && is_purge_due(
                    avail_phys,
                    standby_or_zero(&standby),
                    self.purge_at_standby_mb,
                    self.purge_at_free_mb,
                ) {
                    UpdateAction::PurgeStandbyList
                } else {
                    UpdateAction::Draw
                }
            },
            UpdateEvent::Purged { outcome } => {
                match outcome {
                    Ok(_) => {
                        self.last_status = "Auto-purged successfully.".to_owned();
                    },
                    Err(error) => {
                        let mut status: String = "Auto-purge Error: ".to_owned();
                        status.append(error.as_str());
                        self.last_status = status;
                    },
                }
                UpdateAction::Draw
            },
        }
    }

    /// Opens a page.
    pub fn select_tab(&mut self, tab: ActiveTab)
        ensures
            final(self)@ == (AppState { active_tab: tab, ..old(self)@ }),
    {
        self.active_tab = tab;
    }

    /// Takes in a click on the head of a column: the sorted column turns its
    /// direction round, another one becomes the sorted column, largest first.
    pub fn header_clicked(&mut self, column: SortColumn)
        ensures
            final(self)@ == header_clicked_state(old(self)@, column),
    {
        if self.sort_column == column {
            self.sort_ascending = !self.sort_ascending;
        } else {
            self.sort_column = column;
            self.sort_ascending = false;
        }
    }

    /// What stands at the head of a column.
    pub fn header_text(&self, column: SortColumn) -> (text: String)
        ensures
            text@ == column_head(self@, column),
    {
        let caption: &str = match column {
            SortColumn::Pid => "PID",
            SortColumn::Name => "Name",
            SortColumn::Cpu => "CPU",
            SortColumn::Ram => "RAM",
            SortColumn::Disk => "Disk (R / W)",
        };
        let mut text: String = caption.to_owned();
        if self.sort_column == column {
            if self.sort_ascending {
                text.append(" ⏶");
            } else {
                text.append(" ⏷");
            }
        }
        text
    }

    /// Takes in the outcome of a purge by hand and the local time of day at which
    /// it was done. The time of a purge that failed does not matter.
    pub fn manual_purge_finished(
        &mut self,
        outcome: Result<(), String>,
        hour: u32,
        minute: u32,
        second: u32,
    )
        requires
            outcome is Ok ==> hour < 24 && minute < 60 && second < 60,
        ensures
            final(self)@ == (AppState {
                last_status: manual_purge_text(outcome, hour as nat, minute as nat, second as nat),
                ..old(self)@
            }),
    {
        self.last_status = manual_purge_status(&outcome, hour, minute, second);
    }

    /// Takes in the outcome of a request for a timer resolution. The resolution
    /// that came of it is given written out in milliseconds.
    pub fn timer_set_finished(&mut self, outcome: Result<String, String>)
        ensures
            final(self)@ == (AppState { last_status: timer_text(outcome), ..old(self)@ }),
    {
        self.last_status = match outcome {
            Ok(milliseconds) => {
                let mut status: String = "Timer set to ".to_owned();
                status.append(milliseconds.as_str());
                status.append(" ms");
                status
            },
            Err(error) => {
                let mut status: String = "Timer Error: ".to_owned();
                status.append(error.as_str());
                status
            },
        };
    }
}

/// Whether an event is the answer to an action.
pub open spec fn answers(event: UpdateEvent, action: UpdateAction) -> bool {
    match action {
        UpdateAction::RefreshProcesses | UpdateAction::RefreshMemory => event is Refreshed,
        UpdateAction::ReadMemory => event is MemoryRead,
        UpdateAction::PurgeStandbyList => event is Purged,
        UpdateAction::Draw => false,
    }
}

/// How many actions can still come before the page is drawn.
pub open spec fn actions_left(action: UpdateAction) -> nat {
    match action {
        UpdateAction::RefreshProcesses | UpdateAction::RefreshMemory => 3,
        UpdateAction::ReadMemory => 2,
        UpdateAction::PurgeStandbyList => 1,
        UpdateAction::Draw => 0,
    }
}

/// Every frame is drawn: where each event but the first, which starts the
/// frame, answers the action before it, there are four events at most, and
/// after four there is nothing left to do but draw.
pub proof fn law_frame_is_drawn(states: Seq<AppState>, events: Seq<UpdateEvent>)
    requires
        events.len() > 0,
        states.len() == events.len(),
        forall|k: int|
            0 <= k < events.len() - 1 ==> answers(
                #[trigger] events[k + 1],
                next_action(states[k], events[k]),
            ),
    ensures
        events.len() <= 4,
        events.len() == 4 ==> next_action(states.last(), events.last()) is Draw,
{
    lemma_actions_left(states, events, events.len() - 1);
}

proof fn lemma_actions_left(states: Seq<AppState>, events: Seq<UpdateEvent>, n: int)
    requires
        0 <= n < events.len(),
        states.len() == events.len(),
        forall|k: int|
            0 <= k < events.len() - 1 ==> answers(
                #[trigger] events[k + 1],
                next_action(states[k], events[k]),
            ),
    ensures
        actions_left(next_action(states[n], events[n])) + n <= 3,
    decreases n,
{
    if n > 0 {
        lemma_actions_left(states, events, n - 1);
        assert(answers(events[(n - 1) + 1], next_action(states[n - 1], events[n - 1])));
    }
}

/// The standby list is purged on nobody's behalf unless automatic purging is on
/// and both thresholds are met by what was read.
pub proof fn law_purge_needs_thresholds(state: AppState, event: UpdateEvent)
    ensures
        next_action(state, event) is PurgeStandbyList <==> match event {
            UpdateEvent::MemoryRead { avail_phys, standby } => {
                &&& state.is_auto_purge_enabled
                &&& known_standby_mb(standby) >= state.purge_at_standby_mb
                &&& free_mb(avail_phys as nat, known_standby_mb(standby)) <= state.purge_at_free_mb
            },
            _ => false,
        },
        !state.is_auto_purge_enabled ==> next_action(state, event) !is ReadMemory,
{
}

/// The window leaves what the user has set alone while it brings itself up to
/// date, and the status line too, unless it has purged.
pub proof fn law_update_keeps_settings(state: AppState, event: UpdateEvent)
    ensures
        next_state(state, event) == (AppState {
            last_refresh_ns: next_state(state, event).last_refresh_ns,
            last_status: next_state(state, event).last_status,
            ..state
        }),
        event !is Purged ==> next_state(state, event).last_status == state.last_status,
        event !is FrameStarted ==> next_state(state, event).last_refresh_ns
            == state.last_refresh_ns,
{
}

/// Whether an action refreshes figures.
pub open spec fn refreshes(action: UpdateAction) -> bool {
    action is RefreshProcesses || action is RefreshMemory
}

/// The figures are refreshed every two seconds and no more often: once a frame
/// at `first_ns` has refreshed them, a later one does so exactly from two
/// seconds after that on, and it refreshes those of the page that is open.
pub proof fn law_refresh_every_two_seconds(
    state: AppState,
    first_ns: u128,
    second_ns: u128,
    later: AppState,
)
    requires
        refreshes(next_action(state, UpdateEvent::FrameStarted { now_ns: first_ns })),
        later.last_refresh_ns == next_state(
            state,
            UpdateEvent::FrameStarted { now_ns: first_ns },
        ).last_refresh_ns,
    ensures
        refreshes(next_action(later, UpdateEvent::FrameStarted { now_ns: second_ns }))
            <==> second_ns >= first_ns + 2_000_000_000,
        next_action(later, UpdateEvent::FrameStarted { now_ns: second_ns }) is RefreshProcesses
            ==> later.active_tab is Processes,
        next_action(later, UpdateEvent::FrameStarted { now_ns: second_ns }) is RefreshMemory
            ==> later.active_tab is MemoryCleaner,
{
}

/// What a frame begins with, on every page: once two seconds have passed since the
/// last refresh, the figures of the page that is open are refreshed, and the
/// time of that is kept; before that nothing is refreshed and nothing changes.
pub proof fn law_frame_refreshes_open_page(state: AppState, now_ns: u128)
    ensures
        ({
            let frame = UpdateEvent::FrameStarted { now_ns };
            let due = now_ns >= state.last_refresh_ns + 2_000_000_000;
            &&& next_action(state, frame) is RefreshProcesses <==> due
                && state.active_tab is Processes
            &&& next_action(state, frame) is RefreshMemory <==> due
                && state.active_tab is MemoryCleaner
            &&& due ==> next_state(state, frame).last_refresh_ns == now_ns
            &&& !due ==> next_state(state, frame) == state
        }),
{
}

/// With automatic purging on, every frame gets to the thresholds, whichever page is
/// open: the memory is read as soon as there is nothing to refresh. With it off,
/// the memory is not read at all, and the page is drawn then.
pub proof fn law_auto_purge_reads_memory(state: AppState, now_ns: u128)
    ensures
        state.is_auto_purge_enabled ==> next_action(state, UpdateEvent::Refreshed) is ReadMemory,
        state.is_auto_purge_enabled && now_ns < state.last_refresh_ns + 2_000_000_000
            ==> next_action(state, UpdateEvent::FrameStarted { now_ns }) is ReadMemory,
        !state.is_auto_purge_enabled ==> next_action(state, UpdateEvent::Refreshed) is Draw,
        !state.is_auto_purge_enabled && now_ns < state.last_refresh_ns + 2_000_000_000
            ==> next_action(state, UpdateEvent::FrameStarted { now_ns }) is Draw,
{
}

/// What is read decides on the purge, whatever page is open: there is one exactly
/// when automatic purging is on, the standby list has as many megabytes as the
/// one threshold says, and what it leaves of the available bytes is less than a
/// megabyte above what the other says. Otherwise the page is drawn. A standby
/// list of unknown size counts as empty.
pub proof fn law_reading_decides_purge(
    state: AppState,
    avail_phys: u64,
    standby: Result<u64, String>,
)
    ensures
        ({
            let read = UpdateEvent::MemoryRead { avail_phys, standby };
            let mb: int = if standby is Ok {
                standby->Ok_0 as int
            } else {
                0
            };
            let purge = {
                &&& state.is_auto_purge_enabled
                &&& mb >= state.purge_at_standby_mb
                &&& avail_phys < 1048576 * (mb + state.purge_at_free_mb + 1)
            };
            &&& next_action(state, read) is PurgeStandbyList <==> purge
            &&& next_action(state, read) is Draw <==> !purge
            &&& next_state(state, read) == state
        }),
{
    law_purge_due_by_thresholds(
        avail_phys as nat,
        known_standby_mb(standby),
        state.purge_at_standby_mb as nat,
        state.purge_at_free_mb as nat,
    );
    law_unknown_standby_counts_nothing(standby);
}

/// After a purge the page is drawn, and the status line tells how it went: a
/// failure with all of its error.
pub proof fn law_purge_is_reported(state: AppState, outcome: Result<(), String>)
    ensures
        next_action(state, UpdateEvent::Purged { outcome }) is Draw,
        outcome is Ok ==> next_state(state, UpdateEvent::Purged { outcome }).last_status
            == "Auto-purged successfully."@,
        outcome matches Err(error) ==> next_state(
            state,
            UpdateEvent::Purged { outcome },
        ).last_status == "Auto-purge Error: "@ + error@,
        next_state(state, UpdateEvent::Refreshed) == state,
{
}

/// A status line holds all of what it reports: the error, the resolution, or the
/// time of day.
pub proof fn law_status_tells_all(
    purged: Result<(), String>,
    timer: Result<String, String>,
    hour: nat,
    minute: nat,
    second: nat,
)
    ensures
        purged is Ok ==> manual_purge_text(purged, hour, minute, second) == "Purged at "@
            + clock_text(hour, minute, second),
        purged matches Err(error) ==> manual_purge_text(purged, hour, minute, second) == "Error: "@
            + error@,
        timer matches Ok(milliseconds) ==> timer_text(timer) == "Timer set to "@ + milliseconds@
            + " ms"@,
        timer matches Err(error) ==> timer_text(timer) == "Timer Error: "@ + error@,
{
}

/// A state holds just what the window's state holds.
pub proof fn law_state_view(app: OptimizerApp)
    ensures
        app@.search_query == app.search_query@,
        app@.active_tab == app.active_tab,
        app@.purge_at_standby_mb == app.purge_at_standby_mb,
        app@.purge_at_free_mb == app.purge_at_free_mb,
        app@.polling_rate_ms == app.polling_rate_ms,
        app@.last_status == app.last_status@,
        app@.is_auto_purge_enabled == app.is_auto_purge_enabled,
        app@.sort_column == app.sort_column,
        app@.sort_ascending == app.sort_ascending,
        app@.last_refresh_ns == app.last_refresh_ns,
{
}

/// The head of a column begins with the name of the column. Only that of the
/// sorted column has more, a space and an arrow, and it points the other way
/// when the direction is turned round.
pub proof fn law_column_head(state: AppState, column: SortColumn)
    ensures
        ({
            let (name, head) = (column_caption(column), column_head(state, column));
            &&& head.take(name.len() as int) == name
            &&& state.sort_column != column ==> head.len() == name.len()
            &&& state.sort_column == column ==> {
                &&& head.len() == name.len() + 2
                &&& head[name.len() as int] == ' '
                &&& head[name.len() as int + 1] == if state.sort_ascending {
                    '\u{23F6}'
                } else {
                    '\u{23F7}'
                }
            }
        }),
        column_caption(SortColumn::Pid) == "PID"@,
        column_caption(SortColumn::Name) == "Name"@,
        column_caption(SortColumn::Cpu) == "CPU"@,
        column_caption(SortColumn::Ram) == "RAM"@,
        column_caption(SortColumn::Disk) == "Disk (R / W)"@,
{
    reveal_strlit(" ⏶");
    reveal_strlit(" ⏷");
    let (name, head) = (column_caption(column), column_head(state, column));
    assert(head.take(name.len() as int) =~= name);
}

/// A click sorts by the column it hits, largest first when the list was sorted
/// by another one and in the other direction when it was sorted by that one, and
/// changes nothing else; two more clicks on it change nothing in the end.
pub proof fn law_header_clicks(state: AppState, column: SortColumn)
    ensures
        header_clicked_state(state, column).sort_column == column,
        state.sort_column != column ==> !header_clicked_state(state, column).sort_ascending,
        header_clicked_state(
            header_clicked_state(header_clicked_state(state, column), column),
            column,
        ) == header_clicked_state(state, column),
        state.sort_column == column ==> header_clicked_state(
            header_clicked_state(state, column),
            column,
        ) == state,
        state.sort_column == column ==> header_clicked_state(state, column).sort_ascending
            != state.sort_ascending,
        header_clicked_state(state, column) == (AppState {
            sort_column: header_clicked_state(state, column).sort_column,
            sort_ascending: header_clicked_state(state, column).sort_ascending,
            ..state
        }),
{
}

} // verus!
