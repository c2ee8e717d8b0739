use vstd::prelude::*;
use crate::Level;
use crate::Message;

verus! {

/// The index that follows `index` among `len` tabs, going round at the end.
pub open spec fn next_tab(index: int, len: int) -> int {
    (index + 1) % len
}

/// The index that precedes `index` among `len` tabs, going round at the
/// start.
pub open spec fn previous_tab(index: int, len: int) -> int {
    if index > 0 {
        index - 1
    } else {
        len - 1
    }
}

/// Among a fixed number of tabs, stepping forward and then back, or back and
/// then forward, returns to the tab one started from, and neither step leaves
/// the tabs.
pub proof fn lemma_tab_steps_undo(index: int, len: int)
    requires
        0 <= index < len,
    ensures
        0 <= next_tab(index, len) < len,
        0 <= previous_tab(index, len) < len,
        previous_tab(next_tab(index, len), len) == index,
        next_tab(previous_tab(index, len), len) == index,
{
    vstd::arithmetic::div_mod::lemma_mod_self_0(len);
    if index + 1 < len {
        vstd::arithmetic::div_mod::lemma_small_mod((index + 1) as nat, len as nat);
    }
    if index > 0 {
        vstd::arithmetic::div_mod::lemma_small_mod(index as nat, len as nat);
    }
}

/// The titles of a row of tabs and the one that is shown.
pub struct TabsState<'a> {
    pub titles: Vec<&'a str>,
    pub index: usize,
}

impl<'a> TabsState<'a> {
    /// The state is well formed where the shown tab is one of the titles.
    pub open spec fn wf(&self) -> bool {
        self.index < self.titles@.len()
    }

    /// A row of tabs that shows the first.
    pub fn new(titles: Vec<&'a str>) -> (tabs: Self)
        ensures
            tabs.titles == titles,
            tabs.index == 0,
            titles@.len() > 0 ==> tabs.wf(),
    {
        Self { titles, index: 0 }
    }

    /// Shows the next tab, the first after the last.
    pub fn next(&mut self)
        requires
            old(self).titles@.len() > 0,
            old(self).index < usize::MAX,
        ensures
            final(self).titles == old(self).titles,
            final(self).index == next_tab(old(self).index as int, old(self).titles@.len() as int),
            final(self).wf(),
    {
        self.index = (self.index + 1) % self.titles.len();
    }

    /// Shows the previous tab, the last before the first.
    pub fn previous(&mut self)
        requires
            old(self).index > 0 || old(self).titles@.len() > 0,
        ensures
            final(self).titles == old(self).titles,
            final(self).index == previous_tab(
                old(self).index as int,
                old(self).titles@.len() as int,
            ),
            old(self).wf() ==> final(self).wf(),
    {
        if self.index > 0 {
            self.index -= 1;
        } else {
            self.index = self.titles.len() - 1;
        }
    }
}

/// Which item of a list is picked out, if any.
#[derive(Debug, Clone, Copy, PartialEq, Eq)]
pub struct ListState {
    pub selected: Option<usize>,
}

impl ListState {
    /// Nothing picked out.
    pub fn new() -> (state: Self)
        ensures
            state.selected is None,
    {
        ListState { selected: None }
    }

    /// The item picked out, if any.
    pub fn selected(&self) -> (index: Option<usize>)
        ensures
            index == self.selected,
    {
        self.selected
    }

    /// Picks out an item, or none.
    pub fn select(&mut self, index: Option<usize>)
        ensures
            final(self).selected == index,
    {
        self.selected = index;
    }
}

/// The selection after a step forward in a list of `len` items: the first
/// item where nothing was picked out or the step leaves the list, else the
/// next.
pub open spec fn selection_after_next(selected: Option<usize>, len: int) -> int {
    match selected {
        Some(i) => if i >= len - 1 {
            0
        } else {
            i + 1
        },
        None => 0,
    }
}

/// The selection after a step back in a list of `len` items: the first item
/// where nothing was picked out, the last where the first was, else the one
/// before.
pub open spec fn selection_after_previous(selected: Option<usize>, len: int) -> int {
    match selected {
        Some(i) => if i == 0 {
            len - 1
        } else {
            i - 1
        },
        None => 0,
    }
}

/// In a list that is not empty, a step in either direction picks out an
/// item of the list, wherever the selection stood before.
pub proof fn lemma_selection_stays_in_list(selected: Option<usize>, len: int)
    requires
        len > 0,
    ensures
        0 <= selection_after_next(selected, len) < len,
        selected is None || selected->0 < len ==> 0 <= selection_after_previous(selected, len)
            < len,
{
}

/// A list of items together with its selection.
pub struct StatefulList<T> {
    pub state: ListState,
    pub items: Vec<T>,
}

impl<T> StatefulList<T> {
    /// A list of the given items with nothing picked out.
    pub fn with_items(items: Vec<T>) -> (list: Self)
        ensures
            list.items == items,
            list.state.selected is None,
    {
        Self { state: ListState::new(), items }
    }

    /// Moves the selection one item forward, to the first item after the
    /// last.
    pub fn next(&mut self)
        requires
            old(self).state.selected is Some ==> old(self).items@.len() > 0,
        ensures
            final(self).items == old(self).items,
            final(self).state.selected == Some(
                selection_after_next(old(self).state.selected, old(self).items@.len() as int)
                    as usize,
            ),
    {
        let i: usize = match self.state.selected() {
            Some(i) => {
                if i >= self.items.len() - 1 {
                    0
                } else {
                    i + 1
                }
            },
            None => 0,
        };
        self.state.select(Some(i));
    }

    /// Moves the selection one item back, to the last item before the first.
    pub fn previous(&mut self)
        requires
            old(self).state.selected == Some(0usize) ==> old(self).items@.len() > 0,
        ensures
            final(self).items == old(self).items,
            final(self).state.selected == Some(
                selection_after_previous(old(self).state.selected, old(self).items@.len() as int)
                    as usize,
            ),
    {
        let i: usize = match self.state.selected() {
            Some(i) => {
                if i == 0 {
                    self.items.len() - 1
                } else {
                    i - 1
                }
            },
            None => 0,
        };
        self.state.select(Some(i));
    }
}

/// The two series of the chart, oldest point first, and the window of the
/// horizontal axis.
pub struct Signals {
    /// Peak temperature over time, in thousandths of a degree.
    pub data1: Vec<(String, i64)>,
    /// Duty over time, in thousandths of a percent.
    pub data2: Vec<(String, i64)>,
    /// Where the horizontal axis starts and ends.
    pub window: [i64; 2],
}

/// How many points a series may hold before its oldest is dropped: the
/// width of the window, and none where the window is empty or upside down.
pub open spec fn window_width(window: [i64; 2]) -> int {
    if window[1] > window[0] {
        window[1] - window[0]
    } else {
        0
    }
}

impl Signals {
    /// Moves the window one step to the right.
    pub fn on_tick(&mut self)
        requires
            old(self).window[0] < i64::MAX,
            old(self).window[1] < i64::MAX,
        ensures
            final(self).window[0] == old(self).window[0] + 1,
            final(self).window[1] == old(self).window[1] + 1,
            final(self).data1 == old(self).data1,
            final(self).data2 == old(self).data2,
    {
        self.window = [self.window[0] + 1, self.window[1] + 1];
    }

    /// Tests whether a series of `len` points is over the window's width.
    pub fn is_over(&self, len: usize) -> (over: bool)
        ensures
            over == (len > window_width(self.window)),
    {
        if self.window[1] > self.window[0] {
            let width: i128 = self.window[1] as i128 - self.window[0] as i128;
            len as i128 > width
        } else {
            len > 0
        }
    }
}

/// A series after one more point: the oldest point goes where the series
/// holds more than `cap` points, and the new point joins at the end.
pub open spec fn appended_within<T>(series: Seq<T>, cap: int, point: T) -> Seq<T> {
    if series.len() > cap {
        series.drop_first().push(point)
    } else {
        series.push(point)
    }
}

/// A history after one more entry: the oldest entry, at the end, goes where
/// the history holds more than `cap` entries, and the new entry joins at the
/// front.
pub open spec fn fronted_within<T>(history: Seq<T>, cap: int, entry: T) -> Seq<T> {
    if history.len() > cap {
        history.drop_last().insert(0, entry)
    } else {
        history.insert(0, entry)
    }
}

/// A series or history that holds at most one entry more than its cap still
/// does so after one more entry.
pub proof fn lemma_histories_stay_bounded<T>(items: Seq<T>, cap: int, entry: T)
    requires
        cap >= 0,
        items.len() <= cap + 1,
    ensures
        appended_within(items, cap, entry).len() <= cap + 1,
        fronted_within(items, cap, entry).len() <= cap + 1,
        appended_within(items, cap, entry).last() == entry,
        fronted_within(items, cap, entry)[0] == entry,
{
}

/// The most entries that the histories of duty and temperature keep before
/// the oldest goes.
pub const HISTORY_CAP: usize = 50;

/// A machine on the overview, with its place as latitude and longitude in
/// thousandths of a degree.
pub struct Server<'a> {
    pub name: &'a str,
    pub location: &'a str,
    pub coords: (i64, i64),
    pub status: &'a str,
}

/// A key that the display understands.
#[derive(Debug, Clone, Copy, PartialEq, Eq)]
pub enum Key {
    Left,
    Up,
    Right,
    Down,
    Char(char),
}

/// What the display shows and how it was last steered.
pub struct App<'a> {
    pub title: &'a str,
    pub should_quit: bool,
    pub tabs: TabsState<'a>,
    pub show_chart: bool,
    pub tasks: StatefulList<&'a str>,
    pub logs: StatefulList<(Level, String)>,
    pub speed_list: StatefulList<(String, u8)>,
    pub temp_list: StatefulList<(String, i64)>,
    pub watt_list: StatefulList<(String, i64)>,
    pub signals: Signals,
    pub barchart_speed: Vec<(String, u64)>,
    pub barchart_temp: Vec<(String, u64)>,
    pub servers: Vec<Server<'a>>,
    pub enhanced_graphics: bool,
}

/// A reading in whole units for a bar: its thousandths cut off, and zero for
/// a reading below zero.
pub open spec fn bar_height(value: i64) -> u64 {
    if value <= 0 {
        0
    } else {
        (value / 1000) as u64
    }
}

/// The bars that a list of fans adds.
pub open spec fn bars_of(fans: Seq<(String, i64)>) -> Seq<(String, u64)> {
    fans.map_values(|f: (String, i64)| (f.0, bar_height(f.1)))
}

impl<'a> App<'a> {
    /// The display is in order where its tab is one of its titles and it
    /// has tasks to pick from. A display in order can take every key, and
    /// stays in order whatever it takes.
    pub open spec fn wf(&self) -> bool {
        &&& self.tabs.wf()
        &&& self.tasks.items@.len() > 0
    }

    /// A display that has received nothing yet: the first of two tabs, the
    /// chart shown, nothing picked out, no history.
    pub fn new(title: &'a str, enhanced_graphics: bool) -> (app: Self)
        ensures
            app.wf(),
            app.title == title,
            app.enhanced_graphics == enhanced_graphics,
            !app.should_quit,
            app.show_chart,
            app.tabs.index == 0,
            app.tabs.titles@.len() == 2,
            app.tasks.items@.len() == 24,
            app.tasks.state.selected is None,
            app.logs.items@.len() == 0,
            app.speed_list.items@.len() == 0,
            app.temp_list.items@.len() == 0,
            app.watt_list.items@.len() == 0,
            app.signals.data1@.len() == 0,
            app.signals.data2@.len() == 0,
            app.signals.window[0] == 0,
            app.signals.window[1] == 180,
            app.barchart_speed@.len() == 0,
            app.barchart_temp@.len() == 0,
            app.servers@.len() == 4,
    {
        let tasks: Vec<&'a str> = vec![
            "Item1",
            "Item2",
            "Item3",
            "Item4",
            "Item5",
            "Item6",
            "Item7",
            "Item8",
            "Item9",
            "Item10",
            "Item11",
            "Item12",
            "Item13",
            "Item14",
            "Item15",
            "Item16",
            "Item17",
            "Item18",
            "Item19",
            "Item20",
            "Item21",
            "Item22",
            "Item23",
            "Item24",
        ];
        App {
            title,
            should_quit: false,
            tabs: TabsState::new(vec!["监控", "设置"]),
            show_chart: true,
            tasks: StatefulList::with_items(tasks),
            logs: StatefulList::with_items(Vec::new()),
            signals: Signals { data1: Vec::new(), data2: Vec::new(), window: [0, 180] },
            speed_list: StatefulList::with_items(Vec::new()),
            temp_list: StatefulList::with_items(Vec::new()),
            watt_list: StatefulList::with_items(Vec::new()),
            barchart_temp: Vec::new(),
            barchart_speed: Vec::new(),
            servers: vec![
                Server {
                    name: "NorthAmerica-1",
                    location: "New York City",
                    coords: (40_710, -74_000),
                    status: "Up",
                },
                Server {
                    name: "Europe-1",
                    location: "Paris",
                    coords: (48_850, 2_350),
                    status: "Failure",
                },
                Server {
                    name: "SouthAmerica-1",
                    location: "São Paulo",
                    coords: (-23_540, -46_620),
                    status: "Up",
                },
                Server {
                    name: "Asia-1",
                    location: "Singapore",
                    coords: (1_350, 103_860),
                    status: "Up",
                },
            ],
            enhanced_graphics,
        }
    }

    /// Whether two displays show the same data: steering changes none of it.
    pub open spec fn same_data(&self, other: Self) -> bool {
        &&& self.title == other.title
        &&& self.logs == other.logs
        &&& self.speed_list == other.speed_list
        &&& self.temp_list == other.temp_list
        &&& self.watt_list == other.watt_list
        &&& self.signals == other.signals
        &&& self.barchart_speed == other.barchart_speed
        &&& self.barchart_temp == other.barchart_temp
        &&& self.servers == other.servers
        &&& self.enhanced_graphics == other.enhanced_graphics
    }

    /// Whether two displays are steered alike: data changes none of it.
    pub open spec fn same_controls(&self, other: Self) -> bool {
        &&& self.title == other.title
        &&& self.should_quit == other.should_quit
        &&& self.tabs == other.tabs
        &&& self.show_chart == other.show_chart
        &&& self.tasks == other.tasks
        &&& self.servers == other.servers
        &&& self.enhanced_graphics == other.enhanced_graphics
    }

    /// Whether this display is `pre` with the task selection moved to
    /// `selected` and nothing else changed.
    pub open spec fn has_picked(&self, pre: Self, selected: int) -> bool {
        &&& self.same_data(pre)
        &&& self.tabs == pre.tabs
        &&& self.should_quit == pre.should_quit
        &&& self.show_chart == pre.show_chart
        &&& self.tasks.items == pre.tasks.items
        &&& self.tasks.state.selected == Some(selected as usize)
    }

    /// Whether this display is `pre` with the tab `index` shown and nothing
    /// else changed.
    pub open spec fn has_turned_to(&self, pre: Self, index: int) -> bool {
        &&& self.same_data(pre)
        &&& self.tasks == pre.tasks
        &&& self.should_quit == pre.should_quit
        &&& self.show_chart == pre.show_chart
        &&& self.tabs.titles == pre.tabs.titles
        &&& self.tabs.index == index
    }

    /// Whether this display is `pre` after the character key `c`: `q` asks
    /// to quit, `t` shows or hides the chart, any other changes nothing.
    pub open spec fn has_taken_char(&self, pre: Self, c: char) -> bool {
        &&& self.same_data(pre)
        &&& self.tabs == pre.tabs
        &&& self.tasks == pre.tasks
        &&& self.should_quit == (pre.should_quit || c == 'q')
        &&& self.show_chart == (if c == 't' {
            !pre.show_chart
        } else {
            pre.show_chart
        })
    }

    /// Whether this display is `pre` after a step up in the tasks.
    pub open spec fn has_gone_up(&self, pre: Self) -> bool {
        self.has_picked(
            pre,
            selection_after_previous(pre.tasks.state.selected, pre.tasks.items@.len() as int),
        )
    }

    /// Whether this display is `pre` after a step down in the tasks.
    pub open spec fn has_gone_down(&self, pre: Self) -> bool {
        self.has_picked(
            pre,
            selection_after_next(pre.tasks.state.selected, pre.tasks.items@.len() as int),
        )
    }

    /// Whether this display is `pre` after a step to the tab on the left.
    pub open spec fn has_gone_left(&self, pre: Self) -> bool {
        self.has_turned_to(pre, previous_tab(pre.tabs.index as int, pre.tabs.titles@.len() as int))
    }

    /// Whether this display is `pre` after a step to the tab on the right.
    pub open spec fn has_gone_right(&self, pre: Self) -> bool {
        self.has_turned_to(pre, next_tab(pre.tabs.index as int, pre.tabs.titles@.len() as int))
    }

    /// Whether this display is `pre` after the key `key`: the arrows and
    /// `h`, `j`, `k`, `l` steer tabs and tasks, every other character is
    /// taken as a character key.
    pub open spec fn has_pressed(&self, pre: Self, key: Key) -> bool {
        match key {
            Key::Left => self.has_gone_left(pre),
            Key::Up => self.has_gone_up(pre),
            Key::Right => self.has_gone_right(pre),
            Key::Down => self.has_gone_down(pre),
            Key::Char(c) => if c == 'h' {
                self.has_gone_left(pre)
            } else if c == 'k' {
                self.has_gone_up(pre)
            } else if c == 'l' {
                self.has_gone_right(pre)
            } else if c == 'j' {
                self.has_gone_down(pre)
            } else {
                self.has_taken_char(pre, c)
            },
        }
    }

    /// Whether the task selection can step back: it does not stand on the
    /// first of no tasks.
    pub open spec fn can_go_up(&self) -> bool {
        self.tasks.state.selected == Some(0usize) ==> self.tasks.items@.len() > 0
    }

    /// Whether the task selection can step forward: where something is
    /// picked out, there are tasks.
    pub open spec fn can_go_down(&self) -> bool {
        self.tasks.state.selected is Some ==> self.tasks.items@.len() > 0
    }

    /// Whether the tabs can step to the left: there is a tab before the one
    /// shown, or a last tab to go round to.
    pub open spec fn can_go_left(&self) -> bool {
        self.tabs.index > 0 || self.tabs.titles@.len() > 0
    }

    /// Whether the tabs can step to the right: there are tabs, and the index
    /// of the one shown can still be counted up.
    pub open spec fn can_go_right(&self) -> bool {
        self.tabs.titles@.len() > 0 && self.tabs.index < usize::MAX
    }

    /// Whether the display can take the key `key`: a key that steers needs
    /// what its step needs, and any other key needs nothing.
    pub open spec fn can_press(&self, key: Key) -> bool {
        match key {
            Key::Left => self.can_go_left(),
            Key::Up => self.can_go_up(),
            Key::Right => self.can_go_right(),
            Key::Down => self.can_go_down(),
            Key::Char(c) => if c == 'h' {
                self.can_go_left()
            } else if c == 'k' {
                self.can_go_up()
            } else if c == 'l' {
                self.can_go_right()
            } else if c == 'j' {
                self.can_go_down()
            } else {
                true
            },
        }
    }

    /// Tests whether the display can take the key `key`.
    pub fn accepts(&self, key: Key) -> (b: bool)
        ensures
            b == self.can_press(key),
    {
        let left = self.tabs.index > 0 || self.tabs.titles.len() > 0;
        let right = self.tabs.titles.len() > 0 && self.tabs.index < usize::MAX;
        let up = match self.tasks.state.selected() {
            Some(i) => i != 0 || self.tasks.items.len() > 0,
            None => true,
        };
        let down = match self.tasks.state.selected() {
            Some(_) => self.tasks.items.len() > 0,
            None => true,
        };
        match key {
            Key::Left => left,
            Key::Up => up,
            Key::Right => right,
            Key::Down => down,
            Key::Char(c) => {
                if c == 'h' {
                    left
                } else if c == 'k' {
                    up
                } else if c == 'l' {
                    right
                } else if c == 'j' {
                    down
                } else {
                    true
                }
            },
        }
    }

    /// Moves the task selection one item back.
    pub fn on_up(&mut self)
        requires
            old(self).can_go_up(),
        ensures
            final(self).has_gone_up(*old(self)),
            old(self).wf() ==> final(self).wf(),
    {
        self.tasks.previous();
    }

    /// Moves the task selection one item forward.
    pub fn on_down(&mut self)
        requires
            old(self).can_go_down(),
        ensures
            final(self).has_gone_down(*old(self)),
            old(self).wf() ==> final(self).wf(),
    {
        self.tasks.next();
    }

    /// Shows the next tab.
    pub fn on_right(&mut self)
        requires
            old(self).can_go_right(),
        ensures
            final(self).has_gone_right(*old(self)),
            old(self).wf() ==> final(self).wf(),
    {
        self.tabs.next();
    }

    /// Shows the previous tab.
    pub fn on_left(&mut self)
        requires
            old(self).can_go_left(),
        ensures
            final(self).has_gone_left(*old(self)),
            old(self).wf() ==> final(self).wf(),
    {
        self.tabs.previous();
    }

    /// Takes a character key: `q` asks to quit, `t` shows or hides the
    /// chart, any other changes nothing.
    pub fn on_key(&mut self, c: char)
        ensures
            final(self).has_taken_char(*old(self), c),
            old(self).wf() ==> final(self).wf(),
    {
        if c == 'q' {
            self.should_quit = true;
        } else if c == 't' {
            self.show_chart = !self.show_chart;
        }
    }

    /// Takes a key press: the arrows and `h`, `j`, `k`, `l` steer tabs and
    /// tasks, every other character goes to `on_key`.
    pub fn on_press(&mut self, key: Key)
        requires
            old(self).can_press(key),
        ensures
            final(self).has_pressed(*old(self), key),
            old(self).wf() ==> final(self).wf(),
    {
        match key {
            Key::Left => self.on_left(),
            Key::Up => self.on_up(),
            Key::Right => self.on_right(),
            Key::Down => self.on_down(),
            Key::Char(c) => {
                if c == 'h' {
                    self.on_left()
                } else if c == 'k' {
                    self.on_up()
                } else if c == 'l' {
                    self.on_right()
                } else if c == 'j' {
                    self.on_down()
                } else {
                    self.on_key(c)
                }
            },
        }
    }

    /// Whether this display is `pre` with its log turned into `log` and its
    /// bars into `bars`, and nothing else changed.
    pub open spec fn has_turned(
        &self,
        pre: Self,
        log: Seq<(Level, String)>,
        bars: Seq<(String, u64)>,
    ) -> bool {
        &&& self.same_controls(pre)
        &&& self.logs.state == pre.logs.state
        &&& self.logs.items@ == log
        &&& self.barchart_temp@ == bars
        &&& self.barchart_speed == pre.barchart_speed
        &&& self.speed_list == pre.speed_list
        &&& self.temp_list == pre.temp_list
        &&& self.watt_list == pre.watt_list
        &&& self.signals == pre.signals
    }

    /// Turns the log and the bars by one place: the last of each comes to
    /// the front.
    pub fn on_tick(&mut self)
        requires
            old(self).logs.items@.len() > 0,
            old(self).barchart_temp@.len() > 0,
        ensures
            final(self).has_turned(
                *old(self),
                old(self).logs.items@.drop_last().insert(0, old(self).logs.items@.last()),
                old(self).barchart_temp@.drop_last().insert(0, old(self).barchart_temp@.last()),
            ),
            old(self).wf() ==> final(self).wf(),
    {
        match self.logs.items.pop() {
            Some(log) => {
                self.logs.items.insert(0, log);
            },
            None => {},
        }
        match self.barchart_temp.pop() {
            Some(event) => {
                self.barchart_temp.insert(0, event);
            },
            None => {},
        }
    }

    /// Whether this display is `pre` with one more line at the front of its
    /// log, of level `level` and reading `line`, and nothing else changed.
    pub open spec fn has_logged(&self, pre: Self, level: Level, line: Seq<char>) -> bool {
        &&& self.logs.items@.len() == pre.logs.items@.len() + 1
        &&& self.logs.items@[0].0 == level
        &&& self.logs.items@[0].1@ == line
        &&& self.has_turned(
            pre,
            pre.logs.items@.insert(0, self.logs.items@[0]),
            pre.barchart_temp@,
        )
    }

    /// Notes that the control loop is gone: an error line `Shutdown` comes
    /// to the front of the log.
    pub fn on_disconnect(&mut self)
        ensures
            final(self).has_logged(*old(self), Level::Error, "Shutdown"@),
            old(self).wf() ==> final(self).wf(),
    {
        self.logs.items.insert(0, (Level::Error, "Shutdown".to_owned()));
    }

    /// Takes a log line: it comes to the front of the log, as the time, a
    /// blank and the text.
    pub fn on_log(&mut self, time: &str, level: Level, text: &str)
        ensures
            final(self).has_logged(*old(self), level, time@ + " "@ + text@),
            old(self).wf() ==> final(self).wf(),
    {
        let mut line = time.to_owned();
        line.append(" ");
        line.append(text);
        self.logs.items.insert(0, (level, line));
    }

    /// Whether this display is `pre` after telemetry: the bars of speed are
    /// empty, each fan has added a bar, in order, after those that were
    /// there, and nothing else changed.
    pub open spec fn has_taken_fans(&self, pre: Self, fans: Seq<(String, i64)>) -> bool {
        &&& self.same_controls(pre)
        &&& self.barchart_speed@.len() == 0
        &&& self.barchart_temp@ == pre.barchart_temp@ + bars_of(fans)
        &&& self.logs == pre.logs
        &&& self.speed_list == pre.speed_list
        &&& self.temp_list == pre.temp_list
        &&& self.watt_list == pre.watt_list
        &&& self.signals == pre.signals
    }

    /// Takes telemetry: the bars of speed are emptied, and each fan adds a
    /// bar, in order, after those that are there.
    pub fn on_fans(&mut self, fans: &Vec<(String, i64)>)
        ensures
            final(self).has_taken_fans(*old(self), fans@),
            old(self).wf() ==> final(self).wf(),
    {
        self.barchart_speed.clear();
        let mut i: usize = 0;
        assert(bars_of(fans@).take(0) =~= Seq::<(String, u64)>::empty());
        assert(self.barchart_temp@ =~= old(self).barchart_temp@ + bars_of(fans@).take(0));
        while i < fans.len()
            invariant
                i <= fans.len(),
                self.same_controls(*old(self)),
                self.barchart_speed@.len() == 0,
                self.barchart_temp@ == old(self).barchart_temp@ + bars_of(fans@).take(i as int),
                self.logs == old(self).logs,
                self.speed_list == old(self).speed_list,
                self.temp_list == old(self).temp_list,
                self.watt_list == old(self).watt_list,
                self.signals == old(self).signals,
            decreases fans.len() - i,
        {
            let speed: i64 = fans[i].1;
            let height: u64 = if speed <= 0 {
                0
            } else {
                (speed / 1000) as u64
            };
            self.barchart_temp.push((fans[i].0.clone(), height));
            i = i + 1;
            assert(self.barchart_temp@ =~= old(self).barchart_temp@ + bars_of(fans@).take(
                i as int,
            ));
        }
        assert(bars_of(fans@).take(fans@.len() as int) =~= bars_of(fans@));
    }

    /// Whether this display is `pre` after a fan setting at `time`:
    /// temperature and duty have each added a point to their series, which
    /// dropped its oldest point where it was over the window's width, and an
    /// entry at the front of their history, which dropped its oldest entry
    /// where it was over the history cap; nothing else changed.
    pub open spec fn has_taken_setting(&self, pre: Self, time: Seq<char>, temp: i64, speed: u8) -> bool {
        let width = window_width(pre.signals.window);
        &&& self.same_controls(pre)
        &&& self.logs == pre.logs
        &&& self.watt_list == pre.watt_list
        &&& self.barchart_speed == pre.barchart_speed
        &&& self.barchart_temp == pre.barchart_temp
        &&& self.signals.window == pre.signals.window
        &&& self.signals.data1@.len() > 0
        &&& self.signals.data1@.last().0@ == time
        &&& self.signals.data1@.last().1 == temp
        &&& self.signals.data1@ == appended_within(
            pre.signals.data1@,
            width,
            self.signals.data1@.last(),
        )
        &&& self.signals.data2@.len() > 0
        &&& self.signals.data2@.last().0@ == time
        &&& self.signals.data2@.last().1 == speed * 1000
        &&& self.signals.data2@ == appended_within(
            pre.signals.data2@,
            width,
            self.signals.data2@.last(),
        )
        &&& self.speed_list.state == pre.speed_list.state
        &&& self.speed_list.items@.len() > 0
        &&& self.speed_list.items@[0].0@ == time
        &&& self.speed_list.items@[0].1 == speed
        &&& self.speed_list.items@ == fronted_within(
            pre.speed_list.items@,
            HISTORY_CAP as int,
            self.speed_list.items@[0],
        )
        &&& self.temp_list.state == pre.temp_list.state
        &&& self.temp_list.items@.len() > 0
        &&& self.temp_list.items@[0].0@ == time
        &&& self.temp_list.items@[0].1 == temp
        &&& self.temp_list.items@ == fronted_within(
            pre.temp_list.items@,
            HISTORY_CAP as int,
            self.temp_list.items@[0],
        )
    }

    /// Takes a fan setting: temperature and duty each add a point to their
    /// series and an entry at the front of their history.
    pub fn on_fan_setting(&mut self, time: &str, temp: i64, speed: u8)
        ensures
            final(self).has_taken_setting(*old(self), time@, temp, speed),
            old(self).wf() ==> final(self).wf(),
    {
        if self.signals.is_over(self.signals.data1.len()) {
            self.signals.data1.remove(0);
        }
        self.signals.data1.push((time.to_owned(), temp));
        if self.signals.is_over(self.signals.data2.len()) {
            self.signals.data2.remove(0);
        }
        self.signals.data2.push((time.to_owned(), speed as i64 * 1000));
        if self.speed_list.items.len() > HISTORY_CAP {
            self.speed_list.items.pop();
        }
        self.speed_list.items.insert(0, (time.to_owned(), speed));
        if self.temp_list.items.len() > HISTORY_CAP {
            self.temp_list.items.pop();
        }
        self.temp_list.items.insert(0, (time.to_owned(), temp));
        proof {
            assert(self.signals.data1@ =~= appended_within(
                old(self).signals.data1@,
                window_width(old(self).signals.window),
                self.signals.data1@.last(),
            ));
            assert(self.signals.data2@ =~= appended_within(
                old(self).signals.data2@,
                window_width(old(self).signals.window),
                self.signals.data2@.last(),
            ));
            assert(self.speed_list.items@ =~= fronted_within(
                old(self).speed_list.items@,
                HISTORY_CAP as int,
                self.speed_list.items@[0],
            ));
            assert(self.temp_list.items@ =~= fronted_within(
                old(self).temp_list.items@,
                HISTORY_CAP as int,
                self.temp_list.items@[0],
            ));
        }
    }

    /// Whether this display is `pre` after a message of the control loop: a
    /// log line has joined the log, telemetry has added bars, a fan setting
    /// has added to series and histories, and any other message has changed
    /// nothing.
    pub open spec fn has_taken(&self, pre: Self, message: Message) -> bool {
        match message {
            Message::Log(time, level, text) => self.has_logged(pre, level, time@ + " "@ + text@),
            Message::GotCpuAndFansSpeed(_, _, fans) => self.has_taken_fans(pre, fans@),
            Message::SetFanSpeed(time, temp, speed) => self.has_taken_setting(
                pre,
                time@,
                temp,
                speed,
            ),
            _ => *self == pre,
        }
    }

    /// Takes a message of the control loop.
    pub fn on_message(&mut self, message: &Message)
        ensures
            final(self).has_taken(*old(self), *message),
            old(self).wf() ==> final(self).wf(),
    {
        match message {
            Message::Log(time, level, text) => self.on_log(time.as_str(), *level, text.as_str()),
            Message::GotCpuAndFansSpeed(_, _, fans) => self.on_fans(fans),
            Message::SetFanSpeed(time, temp, speed) => self.on_fan_setting(
                time.as_str(),
                *temp,
                *speed,
            ),
            _ => {},
        }
    }
}

/// A fan setting keeps the histories of duty and temperature within one
/// entry over the history cap, and the two series within one point over the
/// window's width, where they were so before.
pub proof fn lemma_setting_keeps_histories_bounded<'a>(
    pre: App<'a>,
    post: App<'a>,
    time: Seq<char>,
    temp: i64,
    speed: u8,
)
    requires
        post.has_taken_setting(pre, time, temp, speed),
    ensures
        pre.speed_list.items@.len() <= HISTORY_CAP + 1 ==> post.speed_list.items@.len()
            <= HISTORY_CAP + 1,
        pre.temp_list.items@.len() <= HISTORY_CAP + 1 ==> post.temp_list.items@.len()
            <= HISTORY_CAP + 1,
        pre.signals.data1@.len() <= window_width(pre.signals.window) + 1
            ==> post.signals.data1@.len() <= window_width(post.signals.window) + 1,
        pre.signals.data2@.len() <= window_width(pre.signals.window) + 1
            ==> post.signals.data2@.len() <= window_width(post.signals.window) + 1,
{
}

/// A display in order can take every key.
pub proof fn lemma_display_in_order_takes_every_key<'a>(app: App<'a>, key: Key)
    requires
        app.wf(),
    ensures
        app.can_press(key),
{
    assert(app.tabs.titles.len() == app.tabs.titles@.len());
}

} // verus!
