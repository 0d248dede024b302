use crate::analysis::filters::{percentiles_of, presses, select_presses, sorted_samples, FilterConfig};
use crate::analysis::timing::{intervals, TimingAnalysis};
use crate::models::KeystrokeEvent;
use vstd::prelude::*;
use vstd::view::View as _;

verus! {

/// A page of the dashboard.
#[derive(Debug, Clone, Copy, PartialEq, Eq, Structural)]
pub enum View {
    Overview,
    Trends,
    Fingers,
    Timing,
}

impl View {
    /// The title of a page.
    pub open spec fn title_text(&self) -> Seq<char> {
        match self {
            View::Overview => "Overview"@,
            View::Trends => "Trends"@,
            View::Fingers => "Fingers"@,
            View::Timing => "Timing"@,
        }
    }

    /// The place of a page among the tabs.
    pub open spec fn position(&self) -> nat {
        match self {
            View::Overview => 0,
            View::Trends => 1,
            View::Fingers => 2,
            View::Timing => 3,
        }
    }

    /// The page at a place among the tabs; the last page for any place past
    /// it.
    pub open spec fn at(i: nat) -> View {
        if i == 0 {
            View::Overview
        } else if i == 1 {
            View::Trends
        } else if i == 2 {
            View::Fingers
        } else {
            View::Timing
        }
    }

    /// The page after this one, the first after the last.
    pub open spec fn following(&self) -> View {
        View::at((self.position() + 1) % 4)
    }

    /// The page before this one, the last before the first.
    pub open spec fn preceding(&self) -> View {
        View::at((self.position() + 3) % 4)
    }

    /// The title of the page.
    pub fn title(&self) -> (title: &'static str)
        ensures
            title@ == self.title_text(),
    {
        match self {
            View::Overview => "Overview",
            View::Trends => "Trends",
            View::Fingers => "Fingers",
            View::Timing => "Timing",
        }
    }

    /// The place of the page among the tabs.
    pub fn index(&self) -> (i: usize)
        ensures
            i == self.position(),
            View::at(i as nat) == *self,
    {
        match self {
            View::Overview => 0,
            View::Trends => 1,
            View::Fingers => 2,
            View::Timing => 3,
        }
    }

    /// The page at place `i` among the tabs; the last page for any place
    /// past it.
    pub fn from_index(i: usize) -> (view: Self)
        ensures
            view == View::at(i as nat),
            i < 4 ==> view.position() == i,
    {
        match i {
            0 => View::Overview,
            1 => View::Trends,
            2 => View::Fingers,
            _ => View::Timing,
        }
    }
}

/// The span of time that the dashboard shows.
#[derive(Debug, Clone, Copy, PartialEq, Eq, Structural)]
pub enum TimeRange {
    Days7,
    Days30,
    Days90,
    AllTime,
}

impl TimeRange {
    /// The label of a time range.
    pub open spec fn label_text(&self) -> Seq<char> {
        match self {
            TimeRange::Days7 => "7 days"@,
            TimeRange::Days30 => "30 days"@,
            TimeRange::Days90 => "90 days"@,
            TimeRange::AllTime => "All time"@,
        }
    }

    /// The number of days of a bounded range.
    pub open spec fn day_count(&self) -> Option<u32> {
        match self {
            TimeRange::Days7 => Some(7u32),
            TimeRange::Days30 => Some(30u32),
            TimeRange::Days90 => Some(90u32),
            TimeRange::AllTime => None,
        }
    }

    /// The next longer range, the shortest after the longest.
    pub open spec fn longer(&self) -> TimeRange {
        match self {
            TimeRange::Days7 => TimeRange::Days30,
            TimeRange::Days30 => TimeRange::Days90,
            TimeRange::Days90 => TimeRange::AllTime,
            TimeRange::AllTime => TimeRange::Days7,
        }
    }

    /// The next shorter range, the longest before the shortest.
    pub open spec fn shorter(&self) -> TimeRange {
        match self {
            TimeRange::Days7 => TimeRange::AllTime,
            TimeRange::Days30 => TimeRange::Days7,
            TimeRange::Days90 => TimeRange::Days30,
            TimeRange::AllTime => TimeRange::Days90,
        }
    }

    /// The label of the time range.
    pub fn label(&self) -> (label: &'static str)
        ensures
            label@ == self.label_text(),
    {
        match self {
            TimeRange::Days7 => "7 days",
            TimeRange::Days30 => "30 days",
            TimeRange::Days90 => "90 days",
            TimeRange::AllTime => "All time",
        }
    }

    /// The number of days of the range; `None` for all time.
    pub fn days(&self) -> (days: Option<u32>)
        ensures
            days == self.day_count(),
    {
        match self {
            TimeRange::Days7 => Some(7),
            TimeRange::Days30 => Some(30),
            TimeRange::Days90 => Some(90),
            TimeRange::AllTime => None,
        }
    }

    /// The next longer range, the shortest after the longest.
    pub fn next(&self) -> (range: Self)
        ensures
            range == self.longer(),
            range.shorter() == *self,
    {
        match self {
            TimeRange::Days7 => TimeRange::Days30,
            TimeRange::Days30 => TimeRange::Days90,
            TimeRange::Days90 => TimeRange::AllTime,
            TimeRange::AllTime => TimeRange::Days7,
        }
    }

    /// The next shorter range, the longest before the shortest.
    pub fn prev(&self) -> (range: Self)
        ensures
            range == self.shorter(),
            range.longer() == *self,
    {
        match self {
            TimeRange::Days7 => TimeRange::AllTime,
            TimeRange::Days30 => TimeRange::Days7,
            TimeRange::Days90 => TimeRange::Days30,
            TimeRange::AllTime => TimeRange::Days90,
        }
    }
}

/// The figures of the overview page.
#[derive(Debug, Clone, Copy)]
pub struct DashboardStats {
    pub total_presses: u64,
    pub daily_average: u64,
    pub estimated_wpm: u32,
    pub median_delay_ms: i64,
    pub days_active: u32,
}

/// The number of days that an unbounded range is averaged over.
pub const ALL_TIME_DAYS: u32 = 365;

/// The thresholds that the dashboard analyses with.
pub open spec fn dashboard_config() -> FilterConfig {
    FilterConfig { max_gap_ms: 5000, min_hold_ms: 10, max_hold_ms: 2000 }
}

/// The median of the valid intervals between neighbouring presses of
/// `events`; 0 where there is none.
pub open spec fn median_delay(events: Seq<KeystrokeEvent>) -> int {
    match percentiles_of(sorted_samples(intervals(presses(events), dashboard_config()))) {
        Some((p50, _, _, _)) => p50 as int,
        None => 0,
    }
}

/// How steady the typing is, by how far the 95th percentile of the
/// intervals lies above their median.
pub open spec fn consistency_of(median_ms: int, p95_ms: int) -> Seq<char> {
    if p95_ms < median_ms * 2 {
        "Excellent"@
    } else if p95_ms < median_ms * 3 {
        "Good"@
    } else if p95_ms < median_ms * 4 {
        "Fair"@
    } else {
        "Variable"@
    }
}

/// How steady the typing is: `Excellent` where the 95th percentile is below
/// twice the median, `Good` below three times, `Fair` below four times,
/// else `Variable`.
pub fn consistency_label(median_ms: i64, p95_ms: i64) -> (label: &'static str)
    ensures
        label@ == consistency_of(median_ms as int, p95_ms as int),
{
    let median = median_ms as i128;
    let p95 = p95_ms as i128;
    if p95 < median * 2 {
        "Excellent"
    } else if p95 < median * 3 {
        "Good"
    } else if p95 < median * 4 {
        "Fair"
    } else {
        "Variable"
    }
}

/// The pairs of letters that the timing page lists as fastest, each with a
/// median interval in milliseconds and a count: sample figures.
pub open spec fn fastest_pairs() -> Seq<(Seq<char>, i64, u64)> {
    seq![
        ("TH"@, 42i64, 12845u64),
        ("ER"@, 45i64, 11234u64),
        ("AN"@, 48i64, 10892u64),
        ("IN"@, 51i64, 9234u64),
        ("HE"@, 52i64, 8945u64),
        ("RE"@, 54i64, 8234u64),
        ("ON"@, 55i64, 7892u64),
        ("ES"@, 56i64, 7456u64),
    ]
}

/// The pairs of letters that the timing page lists as slowest, each with a
/// median interval in milliseconds and a count: sample figures.
pub open spec fn slowest_pairs() -> Seq<(Seq<char>, i64, u64)> {
    seq![
        ("QU"@, 185i64, 1234u64),
        ("ZX"@, 198i64, 89u64),
        ("XC"@, 142i64, 456u64),
        ("PL"@, 138i64, 892u64),
        ("KL"@, 135i64, 567u64),
        ("JK"@, 132i64, 234u64),
        ("MN"@, 128i64, 1892u64),
        ("BN"@, 125i64, 2345u64),
    ]
}

/// A list of pairs as texts and figures.
pub open spec fn pair_views(pairs: Seq<(String, i64, u64)>) -> Seq<(Seq<char>, i64, u64)> {
    Seq::new(pairs.len(), |i: int| (pairs[i].0@, pairs[i].1, pairs[i].2))
}

/// What the dashboard reads of a key of the terminal.
#[derive(Debug, Clone, Copy, PartialEq, Eq, Structural)]
pub enum DashboardKey {
    Char(char),
    Esc,
    Tab,
    BackTab,
    Right,
    Left,
    Other,
}

/// The state of the dashboard: the page and time range on show, whether to
/// leave, and the events that were loaded for a time range.
pub struct App {
    pub current_view: View,
    pub time_range: TimeRange,
    pub should_quit: bool,
    /// The events that were loaded, until the next refresh.
    pub events_cache: Option<Vec<KeystrokeEvent>>,
    /// The time range that the events were loaded for.
    pub cache_time_range: Option<TimeRange>,
}

impl App {
    /// The events that the pages are computed from: those held, or none.
    pub open spec fn shown_events(&self) -> Seq<KeystrokeEvent> {
        match self.events_cache {
            Some(events) => events@,
            None => Seq::empty(),
        }
    }

    /// The state after `key`, where the state before is `self`.
    pub open spec fn after_key(&self, key: DashboardKey, next: App) -> bool {
        let quits = key == DashboardKey::Char('q') || key == DashboardKey::Esc;
        let refreshes = key == DashboardKey::Char('r');
        &&& next.should_quit == (self.should_quit || quits)
        &&& next.current_view == if key == DashboardKey::Char('1') {
            View::Overview
        } else if key == DashboardKey::Char('2') {
            View::Trends
        } else if key == DashboardKey::Char('3') {
            View::Fingers
        } else if key == DashboardKey::Char('4') {
            View::Timing
        } else if key == DashboardKey::Tab {
            self.current_view.following()
        } else if key == DashboardKey::BackTab {
            self.current_view.preceding()
        } else {
            self.current_view
        }
        &&& next.time_range == if key == DashboardKey::Right {
            self.time_range.longer()
        } else if key == DashboardKey::Left {
            self.time_range.shorter()
        } else {
            self.time_range
        }
        &&& next.events_cache == if refreshes {
            None
        } else {
            self.events_cache
        }
        &&& next.cache_time_range == if refreshes {
            None
        } else {
            self.cache_time_range
        }
    }

    /// A dashboard on its first page, over the last seven days, with no
    /// events loaded.
    pub fn new() -> (app: Self)
        ensures
            app.current_view == View::Overview,
            app.time_range == TimeRange::Days7,
            !app.should_quit,
            app.events_cache is None,
            app.cache_time_range is None,
    {
        App {
            current_view: View::Overview,
            time_range: TimeRange::Days7,
            should_quit: false,
            events_cache: None,
            cache_time_range: None,
        }
    }

    /// Reacts to a key: `q` and escape leave, `1` to `4` pick a page, tab
    /// and back-tab step through the pages, the arrows change the time
    /// range, and `r` drops the held events. Other keys change nothing.
    pub fn handle_key(&mut self, key: DashboardKey)
        ensures
            old(self).after_key(key, *final(self)),
    {
        match key {
            DashboardKey::Char(c) => {
                if c == 'q' {
                    self.should_quit = true;
                } else if c == '1' {
                    self.current_view = View::Overview;
                } else if c == '2' {
                    self.current_view = View::Trends;
                } else if c == '3' {
                    self.current_view = View::Fingers;
                } else if c == '4' {
                    self.current_view = View::Timing;
                } else if c == 'r' {
                    self.events_cache = None;
                    self.cache_time_range = None;
                }
            },
            DashboardKey::Esc => {
                self.should_quit = true;
            },
            DashboardKey::Tab => {
                let next_idx = (self.current_view.index() + 1) % 4;
                self.current_view = View::from_index(next_idx);
            },
            DashboardKey::BackTab => {
                let prev_idx = (self.current_view.index() + 3) % 4;
                self.current_view = View::from_index(prev_idx);
            },
            DashboardKey::Right => {
                self.time_range = self.time_range.next();
            },
            DashboardKey::Left => {
                self.time_range = self.time_range.prev();
            },
            DashboardKey::Other => {},
        }
    }

    /// True when the events on hold were not loaded for the time range on
    /// show, so that they have to be loaded anew.
    pub fn needs_reload(&self) -> (stale: bool)
        ensures
            stale == (self.cache_time_range != Some(self.time_range)),
    {
        match self.cache_time_range {
            Some(range) => range != self.time_range,
            None => true,
        }
    }

    /// Holds `events` as those of the time range on show.
    pub fn store_events(&mut self, events: Vec<KeystrokeEvent>)
        ensures
            final(self).events_cache == Some(events),
            final(self).cache_time_range == Some(old(self).time_range),
            final(self).current_view == old(self).current_view,
            final(self).time_range == old(self).time_range,
            final(self).should_quit == old(self).should_quit,
    {
        self.events_cache = Some(events);
        self.cache_time_range = Some(self.time_range);
    }

    /// The events on hold; none where nothing was loaded.
    pub fn events(&self) -> (events: &[KeystrokeEvent])
        ensures
            events@ == self.shown_events(),
    {
        match &self.events_cache {
            Some(events) => events.as_slice(),
            None => &[],
        }
    }

    /// The figures of the overview page for the events on hold. The words
    /// per minute are an estimate that the caller makes from the mean
    /// interval; they are passed through.
    pub fn get_stats(&self, estimated_wpm: u32) -> (stats: DashboardStats)
        ensures
            stats.total_presses == presses(self.shown_events()).len(),
            stats.days_active == match self.time_range.day_count() {
                Some(days) => days,
                None => ALL_TIME_DAYS,
            },
            stats.daily_average == stats.total_presses / (stats.days_active as u64),
            stats.median_delay_ms == median_delay(self.shown_events()),
            stats.estimated_wpm == estimated_wpm,
    {
        let events = self.events();
        let total_presses = select_presses(events).len() as u64;
        let days_active = match self.time_range.days() {
            Some(days) => days,
            None => ALL_TIME_DAYS,
        };
        let daily_average = if days_active > 0 {
            total_presses / days_active as u64
        } else {
            0
        };
        let timing = TimingAnalysis::from_events(events, FilterConfig::default());
        DashboardStats {
            total_presses,
            daily_average,
            estimated_wpm,
            median_delay_ms: timing.overall_inter_key.median_ms,
            days_active,
        }
    }

    /// The fastest pairs that the timing page lists.
    pub fn get_fastest_pairs(&self) -> (pairs: Vec<(String, i64, u64)>)
        ensures
            pair_views(pairs@) == fastest_pairs(),
    {
        let pairs = vec![
            ("TH".to_string(), 42, 12845),
            ("ER".to_string(), 45, 11234),
            ("AN".to_string(), 48, 10892),
            ("IN".to_string(), 51, 9234),
            ("HE".to_string(), 52, 8945),
            ("RE".to_string(), 54, 8234),
            ("ON".to_string(), 55, 7892),
            ("ES".to_string(), 56, 7456),
        ];
        assert(pair_views(pairs@) =~= fastest_pairs());
        pairs
    }

    /// The slowest pairs that the timing page lists.
    pub fn get_slowest_pairs(&self) -> (pairs: Vec<(String, i64, u64)>)
        ensures
            pair_views(pairs@) == slowest_pairs(),
    {
        let pairs = vec![
            ("QU".to_string(), 185, 1234),
            ("ZX".to_string(), 198, 89),
            ("XC".to_string(), 142, 456),
            ("PL".to_string(), 138, 892),
            ("KL".to_string(), 135, 567),
            ("JK".to_string(), 132, 234),
            ("MN".to_string(), 128, 1892),
            ("BN".to_string(), 125, 2345),
        ];
        assert(pair_views(pairs@) =~= slowest_pairs());
        pairs
    }
}

} // verus!
