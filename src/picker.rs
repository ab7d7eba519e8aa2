//! The fuzzy picker's state: its items, the ones the typed text keeps, and the
//! selection among those.
use vstd::prelude::*;

use crate::config::Config;
use crate::manager::BufferManager;
use crate::modes::Key;
use crate::search::{find_from, first_match_from};
use crate::text::{
    chars_of, lines_view, pop_char, push_char, split_lines, split_text, string_of, trim_bounds, trimmed,
};

verus! {

/// The lowercase mapping of a text.
pub uninterp spec fn lower_of(s: Seq<char>) -> Seq<char>;

/// Whether every character of `s` is an ASCII decimal digit.
pub open spec fn all_digits(s: Seq<char>) -> bool {
    forall|i: int| 0 <= i < s.len() ==> '0' <= #[trigger] s[i] && s[i] <= '9'
}

/// The value of a run of decimal digits, most significant first.
pub open spec fn digits_value(s: Seq<char>) -> int
    decreases s.len(),
{
    if s.len() == 0 {
        0
    } else {
        digits_value(s.drop_last()) * 10 + (s.last() as u32 - '0' as u32)
    }
}

/// The number a text spells in decimal: an optional `+`, then one or more
/// ASCII digits, with a value that fits in a `usize`.
pub open spec fn usize_of(s: Seq<char>) -> Option<usize> {
    let d = if s.len() > 0 && s[0] == '+' {
        s.drop_first()
    } else {
        s
    };
    if d.len() > 0 && all_digits(d) && digits_value(d) <= usize::MAX {
        Some(digits_value(d) as usize)
    } else {
        None
    }
}

/// Relies on `str::to_lowercase`: the Unicode lowercase mapping of the text,
/// which depends on the text alone.
#[verifier::external_body]
fn lowercase(s: &str) -> (r: String)
    ensures
        r@ == lower_of(s@),
{
    s.to_lowercase()
}

/// Relies on `str::parse::<usize>`: an optional `+` followed by decimal
/// digits only, whose value does not overflow; anything else is an error.
#[verifier::external_body]
fn parse_usize(s: &str) -> (r: Option<usize>)
    ensures
        r == usize_of(s@),
{
    s.parse::<usize>().ok()
}

/// What a picker lists.
pub enum PickerType {
    Files,
    Grep(String),
    Buffers,
}

/// What the user picked: a file, a buffer, or neither.
pub struct PickerResult {
    pub selected_file: Option<String>,
    pub selected_buffer_id: Option<usize>,
}

/// One entry of a picker.
pub struct PickerItem {
    pub display: String,
    pub path: Option<String>,
    pub buffer_id: Option<usize>,
    pub line_number: Option<usize>,
    pub match_text: Option<String>,
}

pub struct Picker {
    pub picker_type: PickerType,
    pub items: Vec<PickerItem>,
    /// The indices of the items that the typed text keeps, in order.
    pub filtered_items: Vec<usize>,
    /// The position, among the kept items, of the selected one.
    pub selected: Option<usize>,
    pub input: String,
    pub show_preview: bool,
}

/// What a key did to a picker.
pub enum PickerEvent {
    /// The picker is to close without a choice.
    Cancelled,
    /// The picker is to close with this choice.
    Picked(PickerResult),
    /// The typed text changed and a grep search for it is to run.
    SearchNeeded,
    /// The selection or the kept items changed, or nothing did.
    Updated,
}

/// `p` occurs in `h`.
pub open spec fn contains(h: Seq<char>, p: Seq<char>) -> bool {
    first_match_from(h, p, 0) is Some
}

/// A file is left out where its shown name or its path contains a pattern.
pub open spec fn ignored(display: Seq<char>, path: Seq<char>, patterns: Seq<Seq<char>>) -> bool {
    exists|i: int| 0 <= i < patterns.len() && (contains(display, patterns[i]) || contains(path, patterns[i]))
}

/// The files (shown name, path) that no pattern leaves out, in order.
pub open spec fn kept_files(found: Seq<(Seq<char>, Seq<char>)>, patterns: Seq<Seq<char>>) -> Seq<
    (Seq<char>, Seq<char>),
>
    decreases found.len(),
{
    if found.len() == 0 {
        Seq::empty()
    } else {
        let k = kept_files(found.drop_last(), patterns);
        if ignored(found.last().0, found.last().1, patterns) {
            k
        } else {
            k.push(found.last())
        }
    }
}

/// The first `n` elements of `s`, or all of them.
pub open spec fn first_n<A>(s: Seq<A>, n: int) -> Seq<A> {
    if s.len() <= n {
        s
    } else {
        s.subrange(0, n)
    }
}

/// The indices `0..n`.
pub open spec fn all_indices(n: nat) -> Seq<usize> {
    Seq::new(n, |i: int| i as usize)
}

/// The indices of the texts that contain `q`, in order.
pub open spec fn matching(texts: Seq<Seq<char>>, q: Seq<char>) -> Seq<usize>
    decreases texts.len(),
{
    if texts.len() == 0 {
        Seq::empty()
    } else {
        let m = matching(texts.drop_last(), q);
        if contains(texts.last(), q) {
            m.push((texts.len() - 1) as usize)
        } else {
            m
        }
    }
}

/// A line of grep output cut at its first two colons: file, line number, text.
pub open spec fn grep_fields(line: Seq<char>) -> Option<(Seq<char>, Seq<char>, Seq<char>)> {
    match first_match_from(line, seq![':'], 0) {
        Some(i) => match first_match_from(line, seq![':'], i + 1) {
            Some(j) => Some(
                (line.subrange(0, i), line.subrange(i + 1, j), line.subrange(j + 1, line.len() as int)),
            ),
            None => None,
        },
        None => None,
    }
}

/// The fields of the lines that have them, in order.
pub open spec fn grep_records(lines: Seq<Seq<char>>) -> Seq<(Seq<char>, Seq<char>, Seq<char>)>
    decreases lines.len(),
{
    if lines.len() == 0 {
        Seq::empty()
    } else {
        let r = grep_records(lines.drop_last());
        match grep_fields(lines.last()) {
            Some(f) => r.push(f),
            None => r,
        }
    }
}

/// How many lines of grep output are read at most.
pub const GREP_LINE_LIMIT: usize = 100;

/// Whether `p` occurs in `h`.
pub fn contains_text(h: &str, p: &str) -> (r: bool)
    ensures
        r == contains(h@, p@),
{
    let hc = chars_of(h);
    let pc = chars_of(p);
    find_from(&hc, &pc, 0).is_some()
}

/// Whether a file is left out by one of `patterns`.
pub fn is_ignored(display: &str, path: &str, patterns: &Vec<String>) -> (r: bool)
    ensures
        r == ignored(display@, path@, lines_view(patterns@)),
{
    let ghost pats = lines_view(patterns@);
    let mut k: usize = 0;
    while k < patterns.len()
        invariant
            k <= patterns.len(),
            pats == lines_view(patterns@),
            forall|j: int| 0 <= j < k ==> !(contains(display@, pats[j]) || contains(path@, pats[j])),
        decreases patterns.len() - k,
    {
        if contains_text(display, patterns[k].as_str()) || contains_text(path, patterns[k].as_str()) {
            assert(contains(display@, pats[k as int]) || contains(path@, pats[k as int]));
            return true;
        }
        k += 1;
    }
    false
}

/// The indices of `texts` that contain `query`.
pub fn matching_indices(texts: &Vec<String>, query: &str) -> (r: Vec<usize>)
    ensures
        r@ == matching(lines_view(texts@), query@),
{
    let ghost all = lines_view(texts@);
    let mut r: Vec<usize> = Vec::new();
    let mut i: usize = 0;
    while i < texts.len()
        invariant
            i <= texts.len(),
            all == lines_view(texts@),
            r@ == matching(all.subrange(0, i as int), query@),
        decreases texts.len() - i,
    {
        assert(all.subrange(0, i + 1).drop_last() =~= all.subrange(0, i as int));
        if contains_text(texts[i].as_str(), query) {
            r.push(i);
        }
        i += 1;
    }
    assert(all.subrange(0, i as int) =~= all);
    r
}

/// The indices `0..n`.
fn index_range(n: usize) -> (r: Vec<usize>)
    ensures
        r@ == all_indices(n as nat),
{
    let mut r: Vec<usize> = Vec::new();
    let mut i: usize = 0;
    while i < n
        invariant
            i <= n,
            r@ == all_indices(i as nat),
        decreases n - i,
    {
        r.push(i);
        i += 1;
        assert(r@ =~= all_indices(i as nat));
    }
    r
}

impl Picker {
    /// The kept indices point at items, and the selection at a kept item.
    pub open spec fn wf(&self) -> bool {
        &&& forall|i: int|
            0 <= i < self.filtered_items.len() ==> #[trigger] self.filtered_items@[i] < self.items.len()
        &&& self.selected matches Some(s) ==> s < self.filtered_items.len()
    }

    /// The shown names of the items.
    pub open spec fn displays(&self) -> Seq<Seq<char>> {
        self.items@.map_values(|it: PickerItem| it.display@)
    }

    /// The kept items for the typed text `input`.
    pub open spec fn filter_for(&self, input: Seq<char>) -> Seq<usize> {
        if input.len() == 0 || self.picker_type is Grep {
            all_indices(self.items.len() as nat)
        } else {
            matching(self.displays().map_values(|d: Seq<char>| lower_of(d)), lower_of(input))
        }
    }

    /// The selection one kept item up, wrapping to the last.
    pub open spec fn selection_up(&self) -> Option<usize> {
        if self.filtered_items.len() == 0 {
            self.selected
        } else {
            let s = match self.selected {
                Some(s) => s as int,
                None => 0,
            };
            Some(
                (if s > 0 {
                    s - 1
                } else {
                    self.filtered_items.len() - 1
                }) as usize,
            )
        }
    }

    /// The selection one kept item down, wrapping to the first.
    pub open spec fn selection_down(&self) -> Option<usize> {
        if self.filtered_items.len() == 0 {
            self.selected
        } else {
            let s = match self.selected {
                Some(s) => s as int,
                None => 0,
            };
            Some(
                (if s + 1 < self.filtered_items.len() {
                    s + 1
                } else {
                    0
                }) as usize,
            )
        }
    }

    /// What choosing the selected item gives.
    pub open spec fn choice(&self, r: PickerResult) -> bool {
        match self.selected {
            Some(s) => {
                let item = self.items@[self.filtered_items@[s as int] as int];
                r.selected_file == item.path && r.selected_buffer_id == item.buffer_id
            },
            None => r.selected_file is None && r.selected_buffer_id is None,
        }
    }

    /// The first item selected when there is one.
    pub open spec fn first_selected(filtered: Seq<usize>) -> Option<usize> {
        if filtered.len() == 0 {
            None
        } else {
            Some(0)
        }
    }

    /// A picker over the files that a walk found, as (shown name, path) pairs:
    /// those that no ignore pattern leaves out, at most `max_results` of them.
    pub fn new_file_picker(config: &Config, found: Vec<(String, String)>) -> (r: Picker)
        ensures
            r.wf(),
            r.picker_type is Files,
            ({
                let kept = first_n(
                    kept_files(
                        found@.map_values(|f: (String, String)| (f.0@, f.1@)),
                        lines_view(config.picker.file_ignore_patterns@),
                    ),
                    config.picker.max_results as int,
                );
                &&& r.items.len() == kept.len()
                &&& forall|i: int|
                    0 <= i < kept.len() ==> {
                        &&& (#[trigger] r.items@[i]).display@ == kept[i].0
                        &&& r.items@[i].path matches Some(p) && p@ == kept[i].1
                        &&& r.items@[i].buffer_id is None
                    }
            }),
            r.filtered_items@ == all_indices(r.items.len() as nat),
            r.selected == Picker::first_selected(r.filtered_items@),
            r.input@ == Seq::<char>::empty(),
            r.show_preview == config.picker.preview_enabled,
    {
        let ghost found_view = found@.map_values(|f: (String, String)| (f.0@, f.1@));
        let ghost pats = lines_view(config.picker.file_ignore_patterns@);
        let max = config.picker.max_results;
        let mut items: Vec<PickerItem> = Vec::new();
        let mut i: usize = 0;
        while i < found.len()
            invariant
                i <= found.len(),
                max == config.picker.max_results,
                found_view == found@.map_values(|f: (String, String)| (f.0@, f.1@)),
                pats == lines_view(config.picker.file_ignore_patterns@),
                ({
                    let kept = first_n(kept_files(found_view.subrange(0, i as int), pats), max as int);
                    &&& items.len() == kept.len()
                    &&& forall|j: int|
                        0 <= j < kept.len() ==> {
                            &&& (#[trigger] items@[j]).display@ == kept[j].0
                            &&& items@[j].path matches Some(p) && p@ == kept[j].1
                            &&& items@[j].buffer_id is None
                        }
                }),
            decreases found.len() - i,
        {
            let ghost before = kept_files(found_view.subrange(0, i as int), pats);
            assert(found_view.subrange(0, i + 1).drop_last() =~= found_view.subrange(0, i as int));
            let (display, path) = (&found[i].0, &found[i].1);
            if !is_ignored(display.as_str(), path.as_str(), &config.picker.file_ignore_patterns) {
                if items.len() < max {
                    items.push(
                        PickerItem {
                            display: display.clone(),
                            path: Some(path.clone()),
                            buffer_id: None,
                            line_number: None,
                            match_text: None,
                        },
                    );
                }
                let ghost after = kept_files(found_view.subrange(0, i + 1), pats);
                assert(after == before.push(found_view[i as int]));
                assert(first_n(after, max as int) =~= if before.len() < max {
                    first_n(before, max as int).push(found_view[i as int])
                } else {
                    first_n(before, max as int)
                });
            }
            i += 1;
        }
        assert(found_view.subrange(0, i as int) =~= found_view);
        let filtered_items = index_range(items.len());
        let selected = if items.len() > 0 {
            Some(0)
        } else {
            None
        };
        Picker {
            picker_type: PickerType::Files,
            items,
            filtered_items,
            selected,
            input: String::new(),
            show_preview: config.picker.preview_enabled,
        }
    }

    /// An empty grep picker, filled as a search runs.
    pub fn new_grep_picker(config: &Config) -> (r: Picker)
        ensures
            r.wf(),
            r.picker_type matches PickerType::Grep(q) && q@ == Seq::<char>::empty(),
            r.items.len() == 0,
            r.filtered_items.len() == 0,
            r.selected is None,
            r.input@ == Seq::<char>::empty(),
            r.show_preview == config.picker.preview_enabled,
    {
        Picker {
            picker_type: PickerType::Grep(String::new()),
            items: Vec::new(),
            filtered_items: Vec::new(),
            selected: None,
            input: String::new(),
            show_preview: config.picker.preview_enabled,
        }
    }

    /// A picker over the open buffers, in id order; a modified buffer is shown
    /// with ` [+]` after its name.
    pub fn new_buffer_picker(config: &Config, buffer_manager: &BufferManager) -> (r: Picker)
        ensures
            r.wf(),
            r.picker_type is Buffers,
            r.items.len() == buffer_manager.buffers.len(),
            forall|i: int|
                0 <= i < r.items.len() ==> {
                    let b = buffer_manager.buffers@[i];
                    &&& (#[trigger] r.items@[i]).display@ == b.name@ + if b.modified {
                        " [+]"@
                    } else {
                        Seq::empty()
                    }
                    &&& r.items@[i].path == b.path
                    &&& r.items@[i].buffer_id == Some(b.id)
                },
            r.filtered_items@ == all_indices(r.items.len() as nat),
            r.selected == Picker::first_selected(r.filtered_items@),
            r.input@ == Seq::<char>::empty(),
            r.show_preview == config.picker.preview_enabled,
    {
        let mut items: Vec<PickerItem> = Vec::new();
        let mut i: usize = 0;
        while i < buffer_manager.buffers.len()
            invariant
                i <= buffer_manager.buffers.len(),
                items.len() == i,
                forall|j: int|
                    0 <= j < i ==> {
                        let b = buffer_manager.buffers@[j];
                        &&& (#[trigger] items@[j]).display@ == b.name@ + if b.modified {
                            " [+]"@
                        } else {
                            Seq::empty()
                        }
                        &&& items@[j].path == b.path
                        &&& items@[j].buffer_id == Some(b.id)
                    },
            decreases buffer_manager.buffers.len() - i,
        {
            let b = &buffer_manager.buffers[i];
            let mut display = b.name.clone();
            if b.modified {
                display.append(" [+]");
            } else {
                assert(display@ =~= b.name@ + Seq::<char>::empty());
            }
            let path = match &b.path {
                Some(p) => Some(p.clone()),
                None => None,
            };
            items.push(PickerItem { display, path, buffer_id: Some(b.id), line_number: None, match_text: None });
            i += 1;
        }
        let filtered_items = index_range(items.len());
        let selected = if items.len() > 0 {
            Some(0)
        } else {
            None
        };
        Picker {
            picker_type: PickerType::Buffers,
            items,
            filtered_items,
            selected,
            input: String::new(),
            show_preview: config.picker.preview_enabled,
        }
    }

    /// Selects the kept item above, the last one from the first.
    pub fn move_selection_up(&mut self)
        requires
            old(self).wf(),
        ensures
            final(self).wf(),
            *final(self) == (Picker { selected: final(self).selected, ..*old(self) }),
            final(self).selected == old(self).selection_up(),
    {
        let n = self.filtered_items.len();
        if n > 0 {
            let s = match self.selected {
                Some(s) => s,
                None => 0,
            };
            self.selected = Some(
                if s > 0 {
                    s - 1
                } else {
                    n - 1
                },
            );
        }
    }

    /// Selects the kept item below, the first one from the last.
    pub fn move_selection_down(&mut self)
        requires
            old(self).wf(),
        ensures
            final(self).wf(),
            *final(self) == (Picker { selected: final(self).selected, ..*old(self) }),
            final(self).selected == old(self).selection_down(),
    {
        let n = self.filtered_items.len();
        if n > 0 {
            let s = match self.selected {
                Some(s) => s,
                None => 0,
            };
            self.selected = Some(
                if s + 1 < n {
                    s + 1
                } else {
                    0
                },
            );
        }
    }

    /// The file and buffer of the selected item, or neither.
    pub fn select_current(&self) -> (r: PickerResult)
        requires
            self.wf(),
        ensures
            self.choice(r),
    {
        if let Some(s) = self.selected {
            let item = &self.items[self.filtered_items[s]];
            let selected_file = match &item.path {
                Some(p) => Some(p.clone()),
                None => None,
            };
            return PickerResult { selected_file, selected_buffer_id: item.buffer_id };
        }
        PickerResult { selected_file: None, selected_buffer_id: None }
    }

    /// Keeps the items that the typed text asks for and selects the first: all
    /// of them for empty text or a grep picker (whose items are the search's
    /// results), else those whose lowercased name contains the lowercased text.
    pub fn update_filter(&mut self)
        requires
            old(self).wf(),
        ensures
            final(self).wf(),
            *final(self) == (Picker {
                filtered_items: final(self).filtered_items,
                selected: final(self).selected,
                ..*old(self)
            }),
            final(self).filtered_items@ == old(self).filter_for(old(self).input@),
            final(self).selected == Picker::first_selected(final(self).filtered_items@),
    {
        let keep_all = match self.picker_type {
            PickerType::Grep(_) => true,
            _ => self.input.as_str().unicode_len() == 0,
        };
        if keep_all {
            self.filtered_items = index_range(self.items.len());
        } else {
            let mut lowered: Vec<String> = Vec::new();
            let mut i: usize = 0;
            while i < self.items.len()
                invariant
                    i <= self.items.len(),
                    lowered.len() == i,
                    forall|j: int| 0 <= j < i ==> (#[trigger] lowered@[j])@ == lower_of(self.items@[j].display@),
                decreases self.items.len() - i,
            {
                lowered.push(lowercase(self.items[i].display.as_str()));
                i += 1;
            }
            assert(lines_view(lowered@) =~= self.displays().map_values(|d: Seq<char>| lower_of(d)));
            let query = lowercase(self.input.as_str());
            self.filtered_items = matching_indices(&lowered, query.as_str());
            proof {
                lemma_matching_bounds(lines_view(lowered@), query@);
            }
        }
        self.selected = if self.filtered_items.len() > 0 {
            Some(0)
        } else {
            None
        };
    }

    /// The text a grep search is to look for: the typed text, unless it is
    /// blank.
    pub fn grep_query(&self) -> (r: Option<String>)
        ensures
            match r {
                Some(q) => q@ == self.input@ && trimmed(self.input@).len() > 0,
                None => trimmed(self.input@).len() == 0,
            },
    {
        let chars = chars_of(self.input.as_str());
        let (a, b) = trim_bounds(&chars, 0, chars.len());
        assert(chars@.subrange(0, chars.len() as int) =~= self.input@);
        if a < b {
            Some(self.input.clone())
        } else {
            None
        }
    }

    /// Takes one key: Esc cancels, Enter picks the selected item, Up and Down
    /// move the selection, and typing or erasing a character changes the typed
    /// text and keeps the items it asks for (a grep picker asks for a search).
    pub fn handle_key(&mut self, key: Key) -> (r: PickerEvent)
        requires
            old(self).wf(),
        ensures
            final(self).wf(),
            final(self).items == old(self).items,
            final(self).picker_type == old(self).picker_type,
            final(self).show_preview == old(self).show_preview,
            match key {
                Key::Esc => r is Cancelled && *final(self) == *old(self),
                Key::Enter => r matches PickerEvent::Picked(res) && old(self).choice(res) && *final(self)
                    == *old(self),
                Key::Up => r is Updated && *final(self) == (Picker {
                    selected: old(self).selection_up(),
                    ..*old(self)
                }),
                Key::Down => r is Updated && *final(self) == (Picker {
                    selected: old(self).selection_down(),
                    ..*old(self)
                }),
                Key::Char(c) => {
                    &&& final(self).input@ == old(self).input@.push(c)
                    &&& if old(self).picker_type is Grep {
                        r is SearchNeeded && final(self).filtered_items == old(self).filtered_items
                            && final(self).selected == old(self).selected
                    } else {
                        r is Updated && final(self).filtered_items@ == old(self).filter_for(final(self).input@)
                            && final(self).selected == Picker::first_selected(final(self).filtered_items@)
                    }
                },
                Key::Backspace => {
                    &&& final(self).input@ == if old(self).input@.len() > 0 {
                        old(self).input@.drop_last()
                    } else {
                        old(self).input@
                    }
                    &&& if old(self).picker_type is Grep {
                        r is SearchNeeded && final(self).filtered_items == old(self).filtered_items
                            && final(self).selected == old(self).selected
                    } else {
                        r is Updated && final(self).filtered_items@ == old(self).filter_for(final(self).input@)
                            && final(self).selected == Picker::first_selected(final(self).filtered_items@)
                    }
                },
                _ => r is Updated && *final(self) == *old(self),
            },
    {
        match key {
            Key::Esc => PickerEvent::Cancelled,
            Key::Enter => PickerEvent::Picked(self.select_current()),
            Key::Up => {
                self.move_selection_up();
                PickerEvent::Updated
            },
            Key::Down => {
                self.move_selection_down();
                PickerEvent::Updated
            },
            Key::Char(c) => {
                push_char(&mut self.input, c);
                self.after_input_change()
            },
            Key::Backspace => {
                pop_char(&mut self.input);
                self.after_input_change()
            },
            _ => PickerEvent::Updated,
        }
    }

    fn after_input_change(&mut self) -> (r: PickerEvent)
        requires
            old(self).wf(),
        ensures
            final(self).wf(),
            final(self).items == old(self).items,
            final(self).input == old(self).input,
            final(self).picker_type == old(self).picker_type,
            final(self).show_preview == old(self).show_preview,
            if old(self).picker_type is Grep {
                r is SearchNeeded && *final(self) == *old(self)
            } else {
                r is Updated && final(self).filtered_items@ == old(self).filter_for(old(self).input@)
                    && final(self).selected == Picker::first_selected(final(self).filtered_items@)
            },
    {
        match self.picker_type {
            PickerType::Grep(_) => PickerEvent::SearchNeeded,
            _ => {
                self.update_filter();
                PickerEvent::Updated
            },
        }
    }

    /// Replaces the items by the results of a grep search: `None` where the
    /// typed text is blank (no search ran), else the search's output, of which
    /// the first `GREP_LINE_LIMIT` lines of the form `file:line:text` become
    /// items shown as `file:line: text`. All of them are kept.
    pub fn set_grep_results(&mut self, output: Option<&str>)
        requires
            old(self).wf(),
        ensures
            final(self).wf(),
            final(self).input == old(self).input,
            final(self).selected == match old(self).selected {
                Some(s) => if s < final(self).filtered_items.len() {
                    Some(s)
                } else {
                    None
                },
                None => None,
            },
            ({
                let records = match output {
                    Some(o) => grep_records(first_n(split_lines(o@), GREP_LINE_LIMIT as int)),
                    None => Seq::empty(),
                };
                &&& final(self).items.len() == records.len()
                &&& forall|i: int|
                    0 <= i < records.len() ==> {
                        let (file, num, text) = records[i];
                        let item = #[trigger] final(self).items@[i];
                        &&& item.display@ == file + ":"@ + num + ": "@ + text
                        &&& item.path matches Some(p) && p@ == file
                        &&& item.buffer_id is None
                        &&& item.line_number == usize_of(num)
                        &&& item.match_text matches Some(t) && t@ == text
                    }
            }),
            final(self).filtered_items@ == all_indices(final(self).items.len() as nat),
    {
        let mut items: Vec<PickerItem> = Vec::new();
        if let Some(text) = output {
            let lines = split_text(text);
            let ghost all = lines_view(lines@);
            let ghost firsts = first_n(all, GREP_LINE_LIMIT as int);
            let n = if lines.len() < GREP_LINE_LIMIT {
                lines.len()
            } else {
                GREP_LINE_LIMIT
            };
            assert(firsts =~= all.subrange(0, n as int));
            let mut i: usize = 0;
            while i < n
                invariant
                    i <= n <= lines.len(),
                    all == lines_view(lines@),
                    firsts == all.subrange(0, n as int),
                    ({
                        let records = grep_records(all.subrange(0, i as int));
                        &&& items.len() == records.len()
                        &&& forall|j: int|
                            0 <= j < records.len() ==> {
                                let (file, num, text) = records[j];
                                let item = #[trigger] items@[j];
                                &&& item.display@ == file + ":"@ + num + ": "@ + text
                                &&& item.path matches Some(p) && p@ == file
                                &&& item.buffer_id is None
                                &&& item.line_number == usize_of(num)
                                &&& item.match_text matches Some(t) && t@ == text
                            }
                    }),
                decreases n - i,
            {
                assert(all.subrange(0, i + 1).drop_last() =~= all.subrange(0, i as int));
                if let Some(item) = grep_item(&lines[i]) {
                    items.push(item);
                }
                i += 1;
            }
        }
        let old_selected = self.selected;
        self.items = items;
        self.filtered_items = index_range(self.items.len());
        if let Some(s) = old_selected {
            if s >= self.filtered_items.len() {
                self.selected = None;
            }
        }
    }
}

/// The item for one line of grep output, if it has the form `file:line:text`.
fn grep_item(line: &String) -> (r: Option<PickerItem>)
    ensures
        match grep_fields(line@) {
            Some((file, num, text)) => r matches Some(item) && {
                &&& item.display@ == file + ":"@ + num + ": "@ + text
                &&& item.path matches Some(p) && p@ == file
                &&& item.buffer_id is None
                &&& item.line_number == usize_of(num)
                &&& item.match_text matches Some(t) && t@ == text
            },
            None => r is None,
        },
{
    let chars = chars_of(line.as_str());
    let mut colon: Vec<char> = Vec::new();
    colon.push(':');
    assert(colon@ =~= seq![':']);
    let i = match find_from(&chars, &colon, 0) {
        Some(i) => i,
        None => return None,
    };
    let j = match find_from(&chars, &colon, i + 1) {
        Some(j) => j,
        None => return None,
    };
    let file = string_of(&chars, 0, i);
    let num = string_of(&chars, i + 1, j);
    let text = string_of(&chars, j + 1, chars.len());
    let mut display = file.clone();
    display.append(":");
    display.append(num.as_str());
    display.append(": ");
    display.append(text.as_str());
    let line_number = parse_usize(num.as_str());
    Some(PickerItem { display, path: Some(file), buffer_id: None, line_number, match_text: Some(text) })
}

proof fn lemma_matching_bounds(texts: Seq<Seq<char>>, q: Seq<char>)
    requires
        texts.len() <= usize::MAX,
    ensures
        forall|i: int| 0 <= i < matching(texts, q).len() ==> #[trigger] matching(texts, q)[i] < texts.len(),
    decreases texts.len(),
{
    if texts.len() > 0 {
        lemma_matching_bounds(texts.drop_last(), q);
        let m = matching(texts.drop_last(), q);
        assert forall|i: int| 0 <= i < matching(texts, q).len() implies #[trigger] matching(texts, q)[i]
            < texts.len() by {
            if i < m.len() {
                assert(matching(texts, q)[i] == m[i]);
            }
        }
    }
}

} // verus!
