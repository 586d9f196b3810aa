//! The browser's state machine: modes, selection, filter and search query,
//! moved from state to state by key presses and scan results.
use vstd::prelude::*;

use crate::catalogue::{all_wf, records};
use crate::filter::{every_index, filter_indices, lemma_filter_sorted, toggled, visible};
use crate::scan::{scan_message, ScanError};
use crate::search::{first_hit, folded_names, search_position};
use crate::text::{ascii_lower, to_ascii_lower};
use crate::weapons::{Attribute, Weapon, WeaponView};

verus! {

/// What the browser is doing.
#[derive(Clone, Copy, Debug, PartialEq, Eq, Structural)]
pub enum Mode {
    Navigating,
    Searching,
    Scanning,
    Exiting,
}

/// A key press, as the browser tells keys apart.
#[derive(Clone, Copy, Debug, PartialEq, Eq, Structural)]
pub enum Key {
    Char(char),
    Up,
    Down,
    Esc,
    Enter,
    Backspace,
    Other,
}

/// One of the two details panels that scans fill.
#[derive(Clone, Copy, Debug, PartialEq, Eq, Structural)]
pub enum Panel {
    Upper,
    Lower,
}

/// The interactive browser over a catalogue that never changes.
///
/// `displayed` holds catalogue indices: the visible subset under `filter`.
/// `selected` is a position in `displayed`. `upper` and `lower` are the
/// catalogue indices that the two details panels show.
pub struct App {
    pub mode: Mode,
    pub catalogue: Vec<Weapon>,
    pub displayed: Vec<usize>,
    pub filter: Option<Attribute>,
    pub selected: Option<usize>,
    pub query: Vec<char>,
    pub upper: Option<usize>,
    pub lower: Option<usize>,
    pub diagnostic: String,
}

/// The part of the browser's state that key presses change.
pub struct BrowseState {
    pub mode: Mode,
    pub filter: Option<Attribute>,
    pub selected: Option<usize>,
    pub query: Seq<char>,
}

/// The attribute that a filter key stands for.
pub open spec fn filter_key(c: char) -> Option<Attribute> {
    if c == 's' {
        Some(Attribute::Strength)
    } else if c == 'd' {
        Some(Attribute::Dexterity)
    } else if c == 'i' {
        Some(Attribute::Intelligence)
    } else if c == 'f' {
        Some(Attribute::Faith)
    } else if c == 'a' {
        Some(Attribute::Arcane)
    } else {
        None
    }
}

/// The selection one row down, wrapping from the last row to the first.
pub open spec fn step_down(selected: Option<usize>, n: nat) -> Option<usize> {
    if n == 0 {
        None
    } else {
        match selected {
            Some(p) => if p + 1 < n {
                Some((p + 1) as usize)
            } else {
                Some(0)
            },
            None => Some(0),
        }
    }
}

/// The selection one row up, wrapping from the first row to the last.
pub open spec fn step_up(selected: Option<usize>, n: nat) -> Option<usize> {
    if n == 0 {
        None
    } else {
        match selected {
            Some(p) => if p == 0 || p >= n {
                Some((n - 1) as usize)
            } else {
                Some((p - 1) as usize)
            },
            None => Some((n - 1) as usize),
        }
    }
}

/// The first position of `x` in `s`.
pub open spec fn position_of(s: Seq<usize>, x: usize) -> Option<usize>
    decreases s.len(),
{
    if s.len() == 0 {
        None
    } else {
        match position_of(s.drop_last(), x) {
            Some(p) => Some(p),
            None => if s.last() == x {
                Some((s.len() - 1) as usize)
            } else {
                None
            },
        }
    }
}

/// The selection after the visible subset went from `before` to `after`: the
/// same record where it is still visible, else the first row. Nothing stays
/// selected where nothing was.
pub open spec fn reselect(before: Seq<usize>, selected: Option<usize>, after: Seq<usize>) -> Option<
    usize,
> {
    match selected {
        None => None,
        Some(p) => match position_of(after, before[p as int]) {
            Some(q) => Some(q),
            None => if after.len() > 0 {
                Some(0)
            } else {
                None
            },
        },
    }
}

/// The state after the filter became `filter`.
pub open spec fn refiltered(cat: Seq<WeaponView>, s: BrowseState, filter: Option<Attribute>) -> BrowseState {
    BrowseState {
        filter,
        selected: reselect(visible(cat, s.filter), s.selected, visible(cat, filter)),
        ..s
    }
}

/// The state after the query became `query`: the first visible match is
/// selected, or nothing.
pub open spec fn requeried(cat: Seq<WeaponView>, s: BrowseState, query: Seq<char>) -> BrowseState {
    BrowseState {
        query,
        selected: first_hit(folded_names(cat), visible(cat, s.filter), query),
        ..s
    }
}

/// The state after `key` was pressed in state `s`.
pub open spec fn after_key(cat: Seq<WeaponView>, s: BrowseState, key: Key) -> BrowseState {
    let n = visible(cat, s.filter).len();
    match s.mode {
        Mode::Navigating => match key {
            Key::Char(c) => if c == 'q' {
                BrowseState { mode: Mode::Exiting, ..s }
            } else if c == 'j' {
                BrowseState { selected: step_down(s.selected, n), ..s }
            } else if c == 'k' {
                BrowseState { selected: step_up(s.selected, n), ..s }
            } else if c == '/' {
                BrowseState { mode: Mode::Searching, ..s }
            } else if c == 'v' {
                BrowseState { mode: Mode::Scanning, ..s }
            } else if c == 'n' {
                refiltered(cat, s, None)
            } else if filter_key(c) is Some {
                refiltered(cat, s, toggled(s.filter, filter_key(c)->0))
            } else {
                s
            },
            Key::Down => BrowseState { selected: step_down(s.selected, n), ..s },
            Key::Up => BrowseState { selected: step_up(s.selected, n), ..s },
            _ => s,
        },
        Mode::Searching => match key {
            Key::Esc | Key::Enter => BrowseState {
                mode: Mode::Navigating,
                query: Seq::empty(),
                ..s
            },
            Key::Char(c) => requeried(cat, s, s.query.push(ascii_lower(c))),
            Key::Backspace => requeried(
                cat,
                s,
                if s.query.len() > 0 {
                    s.query.drop_last()
                } else {
                    s.query
                },
            ),
            _ => s,
        },
        Mode::Scanning => match key {
            Key::Esc => BrowseState { mode: Mode::Navigating, ..s },
            _ => s,
        },
        Mode::Exiting => s,
    }
}

/// Every index of `s` is below `n`.
pub open spec fn indices_below(s: Seq<usize>, n: nat) -> bool {
    forall|p: int| 0 <= p < s.len() ==> #[trigger] s[p] < n
}

proof fn lemma_visible_in_range(cat: Seq<WeaponView>, filter: Option<Attribute>)
    requires
        cat.len() <= usize::MAX,
    ensures
        indices_below(visible(cat, filter), cat.len()),
{
    match filter {
        None => {},
        Some(a) => lemma_filter_sorted(cat, a),
    }
}

fn find_position(s: &Vec<usize>, x: usize) -> (r: Option<usize>)
    ensures
        r == position_of(s@, x),
        r matches Some(p) ==> p < s@.len(),
{
    let mut i: usize = 0;
    assert(s@.subrange(0, 0) =~= Seq::<usize>::empty());
    while i < s.len()
        invariant
            i <= s@.len(),
            position_of(s@.subrange(0, i as int), x) is None,
        decreases s@.len() - i,
    {
        assert(s@.subrange(0, i + 1).drop_last() =~= s@.subrange(0, i as int));
        if s[i] == x {
            proof {
                lemma_position_stays(s@, x, i + 1);
                lemma_position_bound(s@, x);
            }
            return Some(i);
        }
        i = i + 1;
    }
    assert(s@.subrange(0, i as int) =~= s@);
    None
}

proof fn lemma_position_stays(s: Seq<usize>, x: usize, n: int)
    requires
        0 < n <= s.len(),
        position_of(s.subrange(0, n), x) is Some,
    ensures
        position_of(s, x) == position_of(s.subrange(0, n), x),
    decreases s.len() - n,
{
    if n == s.len() {
        assert(s.subrange(0, n) =~= s);
    } else {
        assert(s.subrange(0, n + 1).drop_last() =~= s.subrange(0, n));
        lemma_position_stays(s, x, n + 1);
    }
}

proof fn lemma_position_bound(s: Seq<usize>, x: usize)
    ensures
        position_of(s, x) matches Some(p) ==> p < s.len(),
    decreases s.len(),
{
    if s.len() > 0 {
        lemma_position_bound(s.drop_last(), x);
    }
}

impl App {
    /// The part of the state that key presses change.
    pub open spec fn state(&self) -> BrowseState {
        BrowseState {
            mode: self.mode,
            filter: self.filter,
            selected: self.selected,
            query: self.query@,
        }
    }

    /// The catalogue as plain values.
    pub open spec fn records(&self) -> Seq<WeaponView> {
        records(self.catalogue@)
    }

    /// `displayed` is the visible subset under `filter`, the selection lies in
    /// it, and the details panels show records of the catalogue.
    pub open spec fn wf(&self) -> bool {
        &&& self.displayed@ == visible(self.records(), self.filter)
        &&& self.selected matches Some(p) ==> p < self.displayed@.len()
        &&& self.upper matches Some(i) ==> i < self.catalogue@.len()
        &&& self.lower matches Some(i) ==> i < self.catalogue@.len()
        &&& all_wf(self.catalogue@)
        &&& self.catalogue@.len() <= usize::MAX
    }

    /// The browser over `catalogue`, navigating, unfiltered, with the first
    /// row selected.
    pub fn new(catalogue: Vec<Weapon>) -> (r: App)
        requires
            all_wf(catalogue@),
        ensures
            r.wf(),
            r.catalogue@ == catalogue@,
            r.mode == Mode::Navigating,
            r.filter is None,
            r.selected == (if catalogue@.len() > 0 {
                Some(0usize)
            } else {
                None
            }),
            r.query@.len() == 0,
            r.upper is None,
            r.lower is None,
            r.diagnostic@.len() == 0,
    {
        let displayed = every_index(catalogue.len());
        let selected = if catalogue.len() > 0 {
            Some(0)
        } else {
            None
        };
        App {
            mode: Mode::Navigating,
            catalogue,
            displayed,
            filter: None,
            selected,
            query: Vec::new(),
            upper: None,
            lower: None,
            diagnostic: String::new(),
        }
    }

    /// Sets the filter to `filter` and selects the same record again where
    /// it stays visible.
    fn set_filter(self, filter: Option<Attribute>) -> (r: App)
        requires
            self.wf(),
        ensures
            r.wf(),
            r.state() == refiltered(self.records(), self.state(), filter),
            r.catalogue == self.catalogue,
            r.upper == self.upper,
            r.lower == self.lower,
            r.diagnostic == self.diagnostic,
    {
        let mut s = self;
        let displayed = match filter {
            None => every_index(s.catalogue.len()),
            Some(a) => filter_indices(&s.catalogue, a),
        };
        proof {
            lemma_visible_in_range(s.records(), filter);
        }
        let selected = match s.selected {
            None => None,
            Some(p) => match find_position(&displayed, s.displayed[p]) {
                Some(q) => Some(q),
                None => if displayed.len() > 0 {
                    Some(0)
                } else {
                    None
                },
            },
        };
        s.displayed = displayed;
        s.filter = filter;
        s.selected = selected;
        s
    }

    /// Applies a filter key: `None` clears the filter, `Some(a)` toggles it
    /// on attribute `a`.
    pub fn filter(self, choice: Option<Attribute>) -> (r: App)
        requires
            self.wf(),
        ensures
            r.wf(),
            r.state() == refiltered(
                self.records(),
                self.state(),
                match choice {
                    None => None,
                    Some(a) => toggled(self.filter, a),
                },
            ),
            r.catalogue == self.catalogue,
            r.upper == self.upper,
            r.lower == self.lower,
            r.diagnostic == self.diagnostic,
    {
        let next = match choice {
            None => None,
            Some(a) => match self.filter {
                Some(f) => if f == a {
                    None
                } else {
                    Some(a)
                },
                None => Some(a),
            },
        };
        self.set_filter(next)
    }

    /// Selects the first visible record whose case-folded name holds the query.
    fn rematch(self) -> (r: App)
        requires
            self.displayed@ == visible(self.records(), self.filter),
            all_wf(self.catalogue@),
            self.catalogue@.len() <= usize::MAX,
            self.upper matches Some(i) ==> i < self.catalogue@.len(),
            self.lower matches Some(i) ==> i < self.catalogue@.len(),
        ensures
            r.wf(),
            r.state() == requeried(self.records(), self.state(), self.query@),
            r.catalogue == self.catalogue,
            r.upper == self.upper,
            r.lower == self.lower,
            r.diagnostic == self.diagnostic,
    {
        let mut s = self;
        proof {
            lemma_visible_in_range(s.records(), s.filter);
        }
        let found = search_position(&s.catalogue, &s.displayed, &s.query);
        proof {
            lemma_first_hit_bound(
                folded_names(s.records()),
                s.displayed@,
                s.query@,
            );
        }
        s.selected = found;
        s
    }

    /// Handles a key press while navigating.
    pub fn navigate(self, key: Key) -> (r: App)
        requires
            self.wf(),
            self.mode == Mode::Navigating,
        ensures
            r.wf(),
            r.state() == after_key(self.records(), self.state(), key),
            r.catalogue == self.catalogue,
            r.upper == self.upper,
            r.lower == self.lower,
            r.diagnostic == self.diagnostic,
    {
        let mut s = self;
        let n = s.displayed.len();
        let down = match key {
            Key::Down => true,
            Key::Char(c) => c == 'j',
            _ => false,
        };
        let up = match key {
            Key::Up => true,
            Key::Char(c) => c == 'k',
            _ => false,
        };
        if down {
            s.selected = if n == 0 {
                None
            } else {
                match s.selected {
                    Some(p) => if p + 1 < n {
                        Some(p + 1)
                    } else {
                        Some(0)
                    },
                    None => Some(0),
                }
            };
            return s;
        }
        if up {
            s.selected = if n == 0 {
                None
            } else {
                match s.selected {
                    Some(p) => if p == 0 || p >= n {
                        Some(n - 1)
                    } else {
                        Some(p - 1)
                    },
                    None => Some(n - 1),
                }
            };
            return s;
        }
        match key {
            Key::Char(c) => {
                if c == 'q' {
                    s.mode = Mode::Exiting;
                    s
                } else if c == '/' {
                    s.mode = Mode::Searching;
                    s
                } else if c == 'v' {
                    s.mode = Mode::Scanning;
                    s
                } else if c == 'n' {
                    s.filter(None)
                } else if c == 's' {
                    s.filter(Some(Attribute::Strength))
                } else if c == 'd' {
                    s.filter(Some(Attribute::Dexterity))
                } else if c == 'i' {
                    s.filter(Some(Attribute::Intelligence))
                } else if c == 'f' {
                    s.filter(Some(Attribute::Faith))
                } else if c == 'a' {
                    s.filter(Some(Attribute::Arcane))
                } else {
                    s
                }
            },
            _ => s,
        }
    }

    /// Handles a key press while searching.
    pub fn search(self, key: Key) -> (r: App)
        requires
            self.wf(),
            self.mode == Mode::Searching,
        ensures
            r.wf(),
            r.state() == after_key(self.records(), self.state(), key),
            r.catalogue == self.catalogue,
            r.upper == self.upper,
            r.lower == self.lower,
            r.diagnostic == self.diagnostic,
    {
        let mut s = self;
        match key {
            Key::Esc | Key::Enter => {
                s.mode = Mode::Navigating;
                s.query = Vec::new();
                s
            },
            Key::Char(c) => {
                s.query.push(to_ascii_lower(c));
                s.rematch()
            },
            Key::Backspace => {
                if s.query.len() > 0 {
                    s.query.pop();
                }
                s.rematch()
            },
            _ => s,
        }
    }

    /// Handles a key press in any mode.
    pub fn on_key(self, key: Key) -> (r: App)
        requires
            self.wf(),
        ensures
            r.wf(),
            r.state() == after_key(self.records(), self.state(), key),
            r.catalogue == self.catalogue,
            r.upper == self.upper,
            r.lower == self.lower,
            r.diagnostic == self.diagnostic,
    {
        match self.mode {
            Mode::Navigating => self.navigate(key),
            Mode::Searching => self.search(key),
            Mode::Scanning => {
                let mut s = self;
                match key {
                    Key::Esc => {
                        s.mode = Mode::Navigating;
                    },
                    _ => {},
                }
                s
            },
            Mode::Exiting => self,
        }
    }

    /// Takes the outcome of one scan of `panel`'s screen region: a record
    /// shows in that panel, an error in the diagnostic line. Nothing else
    /// changes.
    pub fn on_scan(self, panel: Panel, outcome: Result<usize, ScanError>) -> (r: App)
        requires
            self.wf(),
            outcome matches Ok(i) ==> i < self.catalogue@.len(),
        ensures
            r.wf(),
            r.state() == self.state(),
            r.catalogue == self.catalogue,
            r.displayed == self.displayed,
            match outcome {
                Ok(i) => r.diagnostic == self.diagnostic && match panel {
                    Panel::Upper => r.upper == Some(i) && r.lower == self.lower,
                    Panel::Lower => r.lower == Some(i) && r.upper == self.upper,
                },
                Err(e) => r.diagnostic@ == scan_message(e) && r.upper == self.upper && r.lower
                    == self.lower,
            },
    {
        let mut s = self;
        match outcome {
            Ok(i) => match panel {
                Panel::Upper => {
                    s.upper = Some(i);
                },
                Panel::Lower => {
                    s.lower = Some(i);
                },
            },
            Err(e) => {
                s.diagnostic = e.message();
            },
        }
        s
    }
}

proof fn lemma_first_hit_bound(texts: Seq<Seq<char>>, shown: Seq<usize>, q: Seq<char>)
    ensures
        first_hit(texts, shown, q) matches Some(p) ==> p < shown.len(),
    decreases shown.len(),
{
    if shown.len() > 0 {
        lemma_first_hit_bound(texts, shown.drop_last(), q);
    }
}

} // verus!
