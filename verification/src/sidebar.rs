use vstd::prelude::*;

use crate::environments::Environment;
use vstd::string::StringExecFns;

use crate::graph::{contains_text, contains_text_exec};
use crate::input::Key;
use crate::json::{decimal, push_decimal, push_decimal_wide};
use crate::logs_pane::{current_time, Timestamp};
use crate::text::{chars_of, copy_str, push_char, push_str, str_eq};
use crate::theme::{styled_view, ColorDef, StyledSpan, Theme};

verus! {

/// The sections of the sidebar.
#[derive(Debug, Clone, Copy, PartialEq, Eq, Structural)]
pub enum SidebarSection {
    Collections,
    Environments,
    History,
}

/// A line of the sidebar.
#[derive(Debug, Clone, PartialEq)]
pub enum SidebarItem {
    CollectionHeader { id: String, name: String },
    CollectionFolder { name: String, depth: usize },
    CollectionRequest { name: String, depth: usize },
    Environment { id: String, name: String, active: bool },
    HistoryEntry { id: String, method: String, url: String, status: Option<u16>, time_ago: String },
    SectionHeader { section: SidebarSection },
}

/// A line of the sidebar with its texts taken as character sequences.
pub enum Line {
    CollectionHeader { id: Seq<char>, name: Seq<char> },
    CollectionFolder { name: Seq<char>, depth: nat },
    CollectionRequest { name: Seq<char>, depth: nat },
    Environment { id: Seq<char>, name: Seq<char>, active: bool },
    HistoryEntry { id: Seq<char>, method: Seq<char>, url: Seq<char>, status: Option<u16>, time_ago: Seq<char> },
    SectionHeader { section: SidebarSection },
}

impl SidebarItem {
    pub open spec fn line(self) -> Line {
        match self {
            SidebarItem::CollectionHeader { id, name } => Line::CollectionHeader { id: id@, name: name@ },
            SidebarItem::CollectionFolder { name, depth } => Line::CollectionFolder { name: name@, depth: depth as nat },
            SidebarItem::CollectionRequest { name, depth } => Line::CollectionRequest { name: name@, depth: depth as nat },
            SidebarItem::Environment { id, name, active } => Line::Environment { id: id@, name: name@, active },
            SidebarItem::HistoryEntry { id, method, url, status, time_ago } => Line::HistoryEntry {
                id: id@,
                method: method@,
                url: url@,
                status,
                time_ago: time_ago@,
            },
            SidebarItem::SectionHeader { section } => Line::SectionHeader { section },
        }
    }
}

/// The lines that a sequence of items stands for.
pub open spec fn lines(s: Seq<SidebarItem>) -> Seq<Line> {
    s.map_values(|i: SidebarItem| i.line())
}

/// A saved request or a folder of them in a collection.
pub enum CollectionItem {
    Request(String),
    Folder { name: String, children: Vec<CollectionItem> },
}

/// A collection of saved requests.
pub struct Collection {
    pub id: String,
    pub name: String,
    pub items: Vec<CollectionItem>,
}

/// A request of the history, with the answer's status where there was one.
pub struct HistoryEntry {
    pub id: String,
    pub method: String,
    pub url: String,
    pub status: Option<u16>,
    pub timestamp: Timestamp,
}

/// The whole seconds from `earlier` to `later`, rounded toward zero.
pub open spec fn whole_seconds_between(later: Timestamp, earlier: Timestamp) -> int {
    let d = (later.secs - earlier.secs) * 1_000_000_000 + later.nanos - earlier.nanos;
    if d >= 0 {
        d / 1_000_000_000
    } else {
        -((-d) / 1_000_000_000)
    }
}

pub open spec fn magnitude(i: int) -> nat {
    if i < 0 {
        (-i) as nat
    } else {
        i as nat
    }
}

/// How long ago something happened, in the largest unit that fits: seconds,
/// minutes, hours, days, weeks, or months of thirty days.
pub open spec fn ago_text(secs: nat) -> Seq<char> {
    if secs < 60 {
        decimal(secs) + "s ago"@
    } else if secs < 3600 {
        decimal(secs / 60) + "m ago"@
    } else if secs < 86400 {
        decimal(secs / 3600) + "h ago"@
    } else if secs < 604800 {
        decimal(secs / 86400) + "d ago"@
    } else if secs < 2592000 {
        decimal(secs / 604800) + "w ago"@
    } else {
        decimal(secs / 2592000) + "mo ago"@
    }
}

/// How long before `now` the time `then` was (or after it, if later).
pub fn relative_time_at(now: Timestamp, then: Timestamp) -> (r: String)
    ensures
        r@ == ago_text(magnitude(whole_seconds_between(now, then))),
{
    let diff: i128 = now.secs as i128 - then.secs as i128;
    assert(-0x1_0000_0000_0000_0000 < diff < 0x1_0000_0000_0000_0000);
    assert(-0x1_0000_0000_0000_0000 * 1_000_000_000 <= diff * 1_000_000_000 <= 0x1_0000_0000_0000_0000
        * 1_000_000_000) by (nonlinear_arith)
        requires
            -0x1_0000_0000_0000_0000 < diff < 0x1_0000_0000_0000_0000,
    ;
    let d: i128 = diff * 1_000_000_000 + now.nanos as i128 - then.nanos as i128;
    let secs: u128 = if d >= 0 {
        (d / 1_000_000_000) as u128
    } else {
        ((-d) / 1_000_000_000) as u128
    };
    assert(secs == magnitude(whole_seconds_between(now, then)));
    let mut out = String::new();
    if secs < 60 {
        push_decimal_wide(&mut out, secs);
        push_str(&mut out, "s ago");
    } else if secs < 3600 {
        push_decimal_wide(&mut out, secs / 60);
        push_str(&mut out, "m ago");
    } else if secs < 86400 {
        push_decimal_wide(&mut out, secs / 3600);
        push_str(&mut out, "h ago");
    } else if secs < 604800 {
        push_decimal_wide(&mut out, secs / 86400);
        push_str(&mut out, "d ago");
    } else if secs < 2592000 {
        push_decimal_wide(&mut out, secs / 604800);
        push_str(&mut out, "w ago");
    } else {
        push_decimal_wide(&mut out, secs / 2592000);
        push_str(&mut out, "mo ago");
    }
    out
}

/// How long ago `then` was, by the system clock.
pub fn relative_time(then: Timestamp) -> (r: String)
    ensures
        exists|now: Timestamp| r@ == ago_text(magnitude(#[trigger] whole_seconds_between(now, then))),
{
    let now = current_time();
    let r = relative_time_at(now, then);
    assert(r@ == ago_text(magnitude(whole_seconds_between(now, then))));
    r
}

/// The text cut to at most `max` characters, an ellipsis standing for what was cut.
pub open spec fn truncated(text: Seq<char>, max: nat) -> Seq<char> {
    if max == 0 {
        Seq::empty()
    } else if text.len() <= max {
        text
    } else if max == 1 {
        seq!['…']
    } else {
        text.take(max - 1).push('…')
    }
}

/// Cuts `text` to at most `max_width` characters, ending it with an ellipsis
/// where it was cut.
pub fn truncate_text(text: &str, max_width: usize) -> (r: String)
    ensures
        r@ == truncated(text@, max_width as nat),
{
    if max_width == 0 {
        return String::new();
    }
    let chars = chars_of(text);
    if chars.len() <= max_width {
        return copy_str(text);
    }
    let mut out = String::new();
    if max_width == 1 {
        push_char(&mut out, '…');
        return out;
    }
    let mut i: usize = 0;
    while i < max_width - 1
        invariant
            i <= max_width - 1,
            max_width - 1 < chars@.len(),
            chars@ == text@,
            out@ == chars@.take(i as int),
        decreases max_width - 1 - i,
    {
        push_char(&mut out, chars[i]);
        i += 1;
        assert(out@ =~= chars@.take(i as int));
    }
    push_char(&mut out, '…');
    out
}

/// The text in lower case, as `str::to_lowercase` gives it (by Unicode's rules).
pub uninterp spec fn lowercase(s: Seq<char>) -> Seq<char>;

/// Calls `str::to_lowercase`. Claimed: the result is `lowercase` of the
/// characters of `s`, a function of them alone.
#[verifier::external_body]
pub(crate) fn to_lower(s: &str) -> (r: String)
    ensures
        r@ == lowercase(s@),
{
    s.to_lowercase()
}

/// Calls `String::pop`, which takes off the last character, if there is one.
#[verifier::external_body]
pub(crate) fn pop_char(s: &mut String)
    ensures
        final(s)@ == if old(s)@.len() > 0 { old(s)@.drop_last() } else { old(s)@ },
{
    s.pop();
}

/// Whether a line with `text` shows under `filter`: an empty filter lets all
/// through; otherwise the text in lower case must hold the filter in lower case.
pub open spec fn passes(filter: Seq<char>, text: Seq<char>) -> bool {
    filter.len() == 0 || contains_text(lowercase(text), lowercase(filter))
}

/// The strings taken as character sequences.
pub open spec fn texts(v: Seq<String>) -> Seq<Seq<char>> {
    v.map_values(|s: String| s@)
}

/// The keys of collapsed folders, each a path of names.
pub open spec fn folder_keys(v: Seq<Vec<String>>) -> Seq<Seq<Seq<char>>> {
    v.map_values(|k: Vec<String>| texts(k@))
}

/// The deepest nesting of folders under an item, the item counted.
pub open spec fn item_depth(it: CollectionItem) -> nat
    decreases it,
{
    match it {
        CollectionItem::Request(_) => 1,
        CollectionItem::Folder { name: _, children } => 1 + items_depth(children@),
    }
}

/// The deepest nesting under a list of items.
pub open spec fn items_depth(s: Seq<CollectionItem>) -> nat
    decreases s,
{
    if s.len() == 0 {
        0
    } else {
        let a = items_depth(s.drop_last());
        let b = item_depth(s.last());
        if a >= b {
            a
        } else {
            b
        }
    }
}

proof fn lemma_items_depth(s: Seq<CollectionItem>, i: int)
    requires
        0 <= i < s.len(),
    ensures
        item_depth(s[i]) <= items_depth(s),
    decreases s.len(),
{
    if i < s.len() - 1 {
        lemma_items_depth(s.drop_last(), i);
        assert(s.drop_last()[i] == s[i]);
    }
}

/// The lines of an item of a collection at `depth`: a request that passes
/// the filter; a folder that passes it, followed, unless it is collapsed,
/// by the lines of what it holds one level deeper.
pub open spec fn item_lines(it: CollectionItem, depth: nat, filter: Seq<char>, folded: Seq<Seq<Seq<char>>>) -> Seq<Line>
    decreases it,
{
    match it {
        CollectionItem::Request(name) => if passes(filter, name@) {
            seq![Line::CollectionRequest { name: name@, depth }]
        } else {
            Seq::empty()
        },
        CollectionItem::Folder { name, children } => if !passes(filter, name@) {
            Seq::empty()
        } else if folded.contains(seq![name@]) {
            seq![Line::CollectionFolder { name: name@, depth }]
        } else {
            seq![Line::CollectionFolder { name: name@, depth }] + items_lines(children@, depth + 1, filter, folded)
        },
    }
}

/// The lines of a list of items, in order.
pub open spec fn items_lines(s: Seq<CollectionItem>, depth: nat, filter: Seq<char>, folded: Seq<Seq<Seq<char>>>) -> Seq<Line>
    decreases s,
{
    if s.len() == 0 {
        Seq::empty()
    } else {
        items_lines(s.drop_last(), depth, filter, folded) + item_lines(s.last(), depth, filter, folded)
    }
}

/// The lines of the collections: each one's header, then, unless it is
/// collapsed, the lines of its items.
pub open spec fn collection_lines(
    cs: Seq<Collection>,
    filter: Seq<char>,
    folded_collections: Seq<Seq<char>>,
    folded: Seq<Seq<Seq<char>>>,
) -> Seq<Line>
    decreases cs.len(),
{
    if cs.len() == 0 {
        Seq::empty()
    } else {
        let c = cs.last();
        collection_lines(cs.drop_last(), filter, folded_collections, folded) + seq![
            Line::CollectionHeader { id: c.id@, name: c.name@ },
        ] + if folded_collections.contains(c.id@) {
            Seq::empty()
        } else {
            items_lines(c.items@, 1, filter, folded)
        }
    }
}

/// The lines of the environments, the active one marked.
pub open spec fn environment_lines(es: Seq<Environment>, active: Option<Seq<char>>) -> Seq<Line> {
    es.map_values(|e: Environment| Line::Environment { id: e.id@, name: e.name@, active: active == Some(e.id@) })
}

/// The lines of the history, entry `i` aged at the time `nows[i]`.
pub open spec fn history_lines(hs: Seq<HistoryEntry>, nows: Seq<Timestamp>) -> Seq<Line> {
    Seq::new(
        hs.len(),
        |i: int|
            Line::HistoryEntry {
                id: hs[i].id@,
                method: hs[i].method@,
                url: hs[i].url@,
                status: hs[i].status,
                time_ago: ago_text(magnitude(whole_seconds_between(nows[i], hs[i].timestamp))),
            },
    )
}

/// An optional string taken as an optional character sequence.
pub open spec fn opt_text(o: Option<String>) -> Option<Seq<char>> {
    match o {
        Some(s) => Some(s@),
        None => None,
    }
}

/// The index kept once a list has `len` lines: the last line at most.
pub open spec fn fitted(sel: int, len: int) -> int {
    if len == 0 {
        0
    } else if sel < len {
        sel
    } else {
        len - 1
    }
}

/// The sidebar: the collections, environments and history, each section
/// collapsible, with a filter on the names in the collections.
pub struct Sidebar {
    pub collections: Vec<Collection>,
    pub environments: Vec<Environment>,
    pub active_env: Option<String>,
    pub history: Vec<HistoryEntry>,
    pub filter: String,
    pub collapsed_sections: Vec<SidebarSection>,
    pub collapsed_collections: Vec<String>,
    pub collapsed_folders: Vec<Vec<String>>,
    pub items: Vec<SidebarItem>,
    pub selected_index: usize,
    pub filter_active: bool,
}

impl Sidebar {
    /// The folders of every collection nest less deeply than the largest index.
    pub open spec fn depths_fit(&self) -> bool {
        collections_fit(self.collections@)
    }

    /// The lines the sidebar shows, history entry `i` aged at `nows[i]`.
    pub open spec fn expected_lines(self, nows: Seq<Timestamp>) -> Seq<Line> {
        let sections = self.collapsed_sections@;
        seq![Line::SectionHeader { section: SidebarSection::Collections }] + (if sections.contains(
            SidebarSection::Collections,
        ) {
            Seq::empty()
        } else {
            collection_lines(
                self.collections@,
                self.filter@,
                texts(self.collapsed_collections@),
                folder_keys(self.collapsed_folders@),
            )
        }) + seq![Line::SectionHeader { section: SidebarSection::Environments }] + (if sections.contains(
            SidebarSection::Environments,
        ) {
            Seq::empty()
        } else {
            environment_lines(self.environments@, opt_text(self.active_env))
        }) + seq![Line::SectionHeader { section: SidebarSection::History }] + (if sections.contains(
            SidebarSection::History,
        ) {
            Seq::empty()
        } else {
            history_lines(self.history@, nows)
        })
    }

    /// The sidebar is `base` with its lines drawn again from the data, the
    /// history aged by the clock, and the selection kept inside the lines.
    pub open spec fn rebuilt_from(self, base: Sidebar) -> bool {
        &&& exists|nows: Seq<Timestamp>| #[trigger] base.expected_lines(nows) == lines(self.items@)
        &&& self == (Sidebar {
            items: self.items,
            selected_index: fitted(base.selected_index as int, self.items@.len() as int) as usize,
            ..base
        })
    }
}

/// Whether `v` holds `s`.
fn section_listed(v: &Vec<SidebarSection>, s: SidebarSection) -> (r: bool)
    ensures
        r == v@.contains(s),
{
    let mut i: usize = 0;
    while i < v.len()
        invariant
            i <= v@.len(),
            forall|j: int| 0 <= j < i ==> v@[j] != s,
        decreases v@.len() - i,
    {
        if v[i] == s {
            return true;
        }
        i += 1;
    }
    false
}

/// Whether `v` holds a string equal to `s`.
fn string_listed(v: &Vec<String>, s: &str) -> (r: bool)
    ensures
        r == texts(v@).contains(s@),
{
    let mut i: usize = 0;
    while i < v.len()
        invariant
            i <= v@.len(),
            forall|j: int| 0 <= j < i ==> v@[j]@ != s@,
        decreases v@.len() - i,
    {
        if str_eq(v[i].as_str(), s) {
            assert(texts(v@)[i as int] == s@);
            return true;
        }
        i += 1;
    }
    assert forall|j: int| 0 <= j < texts(v@).len() implies texts(v@)[j] != s@ by {}
    false
}

/// Whether `v` holds the folder key made of `name` alone.
fn folder_listed(v: &Vec<Vec<String>>, name: &str) -> (r: bool)
    ensures
        r == folder_keys(v@).contains(seq![name@]),
{
    let mut i: usize = 0;
    while i < v.len()
        invariant
            i <= v@.len(),
            forall|j: int| 0 <= j < i ==> texts(v@[j]@) != seq![name@],
        decreases v@.len() - i,
    {
        let k = &v[i];
        if k.len() == 1 && str_eq(k[0].as_str(), name) {
            assert(texts(k@) =~= seq![name@]);
            assert(folder_keys(v@)[i as int] == seq![name@]);
            return true;
        }
        proof {
            if texts(k@) == seq![name@] {
                assert(texts(k@).len() == 1);
                assert(k@.len() == 1);
                assert(texts(k@)[0] == k@[0]@);
            }
            assert(texts(v@[i as int]@) != seq![name@]);
        }
        i += 1;
    }
    assert forall|j: int| 0 <= j < folder_keys(v@).len() implies folder_keys(v@)[j] != seq![name@] by {}
    false
}

/// Takes `s` out of `v`, keeping the order of the rest.
fn remove_section(v: &mut Vec<SidebarSection>, s: SidebarSection)
    ensures
        final(v)@ == old(v)@.filter(|x: SidebarSection| x != s),
{
    let ghost orig = old(v)@;
    let ghost pred = |x: SidebarSection| x != s;
    let mut rest: Vec<SidebarSection> = Vec::new();
    std::mem::swap(&mut rest, v);
    let n = rest.len();
    let mut i: usize = 0;
    while rest.len() > 0
        invariant
            orig.len() == n,
            pred == (|x: SidebarSection| x != s),
            i <= orig.len(),
            rest@ == orig.skip(i as int),
            v@ == orig.take(i as int).filter(pred),
        decreases rest@.len(),
    {
        let x = rest.remove(0);
        proof {
            reveal(Seq::filter);
            assert(orig.take(i + 1).drop_last() =~= orig.take(i as int));
            assert(orig[i as int] == x);
            assert(orig.take(i + 1).last() == x);
        }
        let ghost before = v@;
        if x != s {
            v.push(x);
            proof { assert(pred(x)); }
        } else {
            proof { assert(!pred(x)); }
        }
        proof { assert(orig.skip(i + 1) =~= orig.skip(i as int).subrange(1, orig.skip(i as int).len() as int)); }
        i += 1;
    }
    proof { assert(orig.take(i as int) =~= orig); }
}

/// Takes every string equal to `s` out of `v`, keeping the order of the rest.
fn remove_string(v: &mut Vec<String>, s: &str)
    ensures
        final(v)@ == old(v)@.filter(|x: String| x@ != s@),
{
    let ghost orig = old(v)@;
    let ghost pred = |x: String| x@ != s@;
    let mut rest: Vec<String> = Vec::new();
    std::mem::swap(&mut rest, v);
    let n = rest.len();
    let mut i: usize = 0;
    while rest.len() > 0
        invariant
            orig.len() == n,
            pred == (|x: String| x@ != s@),
            i <= orig.len(),
            rest@ == orig.skip(i as int),
            v@ == orig.take(i as int).filter(pred),
        decreases rest@.len(),
    {
        let x = rest.remove(0);
        proof {
            reveal(Seq::filter);
            assert(orig.take(i + 1).drop_last() =~= orig.take(i as int));
            assert(orig[i as int] == x);
            assert(orig.take(i + 1).last() == x);
        }
        if !str_eq(x.as_str(), s) {
            v.push(x);
        }
        proof { assert(orig.skip(i + 1) =~= orig.skip(i as int).subrange(1, orig.skip(i as int).len() as int)); }
        i += 1;
    }
    proof { assert(orig.take(i as int) =~= orig); }
}

/// Takes the folder key made of `name` alone out of `v`, keeping the order of the rest.
fn remove_folder(v: &mut Vec<Vec<String>>, name: &str)
    ensures
        final(v)@ == old(v)@.filter(|k: Vec<String>| texts(k@) != seq![name@]),
{
    let ghost orig = old(v)@;
    let ghost pred = |k: Vec<String>| texts(k@) != seq![name@];
    let mut rest: Vec<Vec<String>> = Vec::new();
    std::mem::swap(&mut rest, v);
    let n = rest.len();
    let mut i: usize = 0;
    while rest.len() > 0
        invariant
            orig.len() == n,
            pred == (|k: Vec<String>| texts(k@) != seq![name@]),
            i <= orig.len(),
            rest@ == orig.skip(i as int),
            v@ == orig.take(i as int).filter(pred),
        decreases rest@.len(),
    {
        let k = rest.remove(0);
        proof {
            reveal(Seq::filter);
            assert(orig.take(i + 1).drop_last() =~= orig.take(i as int));
            assert(orig[i as int] == k);
            assert(orig.take(i + 1).last() == k);
        }
        let same = k.len() == 1 && str_eq(k[0].as_str(), name);
        proof {
            if same {
                assert(texts(k@) =~= seq![name@]);
            }
            if texts(k@) == seq![name@] {
                assert(texts(k@).len() == 1);
                assert(k@.len() == 1);
                assert(texts(k@)[0] == k@[0]@);
            }
        }
        if !same {
            v.push(k);
        }
        proof { assert(orig.skip(i + 1) =~= orig.skip(i as int).subrange(1, orig.skip(i as int).len() as int)); }
        i += 1;
    }
    proof { assert(orig.take(i as int) =~= orig); }
}

impl Sidebar {
    /// A sidebar with nothing in it and nothing collapsed.
    pub fn new() -> (r: Sidebar)
        ensures
            r.collections@.len() == 0,
            r.environments@.len() == 0,
            r.active_env is None,
            r.history@.len() == 0,
            r.filter@.len() == 0,
            r.collapsed_sections@.len() == 0,
            r.collapsed_collections@.len() == 0,
            r.collapsed_folders@.len() == 0,
            r.items@.len() == 0,
            r.selected_index == 0,
            !r.filter_active,
    {
        Sidebar {
            collections: Vec::new(),
            environments: Vec::new(),
            active_env: None,
            history: Vec::new(),
            filter: String::new(),
            collapsed_sections: Vec::new(),
            collapsed_collections: Vec::new(),
            collapsed_folders: Vec::new(),
            items: Vec::new(),
            selected_index: 0,
            filter_active: false,
        }
    }

    /// Whether a line with `text` shows under the filter.
    fn filter_applies(&self, text: &str) -> (r: bool)
        ensures
            r == passes(self.filter@, text@),
    {
        if self.filter.as_str().unicode_len() == 0 {
            return true;
        }
        let t = chars_of(to_lower(text).as_str());
        let f = chars_of(to_lower(self.filter.as_str()).as_str());
        contains_text_exec(&t, &f)
    }

    /// Appends the lines of `items` at `depth` to `result`.
    fn flatten_items(&self, items: &Vec<CollectionItem>, depth: usize, result: &mut Vec<SidebarItem>)
        requires
            depth + items_depth(items@) <= usize::MAX,
        ensures
            lines(final(result)@) == lines(old(result)@) + items_lines(
                items@,
                depth as nat,
                self.filter@,
                folder_keys(self.collapsed_folders@),
            ),
        decreases items,
    {
        let ghost start = lines(result@);
        let ghost folded = folder_keys(self.collapsed_folders@);
        let mut i: usize = 0;
        while i < items.len()
            invariant
                i <= items@.len(),
                depth + items_depth(items@) <= usize::MAX,
                folded == folder_keys(self.collapsed_folders@),
                lines(result@) == start + items_lines(items@.take(i as int), depth as nat, self.filter@, folded),
            decreases items@.len() - i,
        {
            let ghost before = lines(result@);
            proof {
                lemma_items_depth(items@, i as int);
                assert(items@.take(i + 1).drop_last() =~= items@.take(i as int));
                assert(items@.take(i + 1).last() == items@[i as int]);
            }
            match &items[i] {
                CollectionItem::Request(name) => {
                    if self.filter_applies(name.as_str()) {
                        result.push(SidebarItem::CollectionRequest { name: name.clone(), depth });
                        proof { assert(lines(result@) =~= before.push(result@.last().line())); }
                    }
                },
                CollectionItem::Folder { name, children } => {
                    if self.filter_applies(name.as_str()) {
                        let collapsed = folder_listed(&self.collapsed_folders, name.as_str());
                        result.push(SidebarItem::CollectionFolder { name: name.clone(), depth });
                        proof { assert(lines(result@) =~= before.push(result@.last().line())); }
                        if !collapsed {
                            proof {
                                broadcast use vstd::std_specs::vec::group_vec_axioms;
                                assert(decreases_to!(*items => items[i as int]));
                            }
                            let ghost mid = lines(result@);
                            self.flatten_items(children, depth + 1, result);
                            proof { assert(lines(result@) =~= before + (seq![result@[before.len() as int].line()] + items_lines(children@, (depth + 1) as nat, self.filter@, folded))); }
                        }
                    }
                },
            }
            proof {
                assert(lines(result@) =~= before + item_lines(items@[i as int], depth as nat, self.filter@, folded));
            }
            i += 1;
        }
        proof { assert(items@.take(items@.len() as int) =~= items@); }
    }
}

impl Sidebar {
    /// Draws the lines again from the data; the selection stays inside them.
    fn rebuild_items(&mut self)
        requires
            old(self).depths_fit(),
        ensures
            final(self).rebuilt_from(*old(self)),
    {
        let ghost folded_cols = texts(self.collapsed_collections@);
        let ghost folded = folder_keys(self.collapsed_folders@);
        let mut items: Vec<SidebarItem> = Vec::new();
        items.push(SidebarItem::SectionHeader { section: SidebarSection::Collections });
        let ghost head = lines(items@);
        proof { assert(head =~= seq![Line::SectionHeader { section: SidebarSection::Collections }]); }
        if !section_listed(&self.collapsed_sections, SidebarSection::Collections) {
            let mut c: usize = 0;
            while c < self.collections.len()
                invariant
                    c <= self.collections@.len(),
                    self.depths_fit(),
                    folded_cols == texts(self.collapsed_collections@),
                    folded == folder_keys(self.collapsed_folders@),
                    lines(items@) == head + collection_lines(
                        self.collections@.take(c as int),
                        self.filter@,
                        folded_cols,
                        folded,
                    ),
                decreases self.collections@.len() - c,
            {
                let ghost before = lines(items@);
                let col = &self.collections[c];
                proof {
                    assert(self.collections@.take(c + 1).drop_last() =~= self.collections@.take(c as int));
                    assert(self.collections@.take(c + 1).last() == *col);
                    assert(1 + items_depth(self.collections@[c as int].items@) <= usize::MAX);
                }
                items.push(SidebarItem::CollectionHeader { id: col.id.clone(), name: col.name.clone() });
                proof { assert(lines(items@) =~= before.push(items@.last().line())); }
                if !string_listed(&self.collapsed_collections, col.id.as_str()) {
                    self.flatten_items(&col.items, 1, &mut items);
                }
                proof {
                    assert(lines(items@) =~= before + seq![Line::CollectionHeader { id: col.id@, name: col.name@ }] + (
                    if folded_cols.contains(col.id@) {
                        Seq::empty()
                    } else {
                        items_lines(col.items@, 1, self.filter@, folded)
                    }));
                }
                c += 1;
            }
            proof { assert(self.collections@.take(self.collections@.len() as int) =~= self.collections@); }
        }
        let ghost upto_collections = lines(items@);
        items.push(SidebarItem::SectionHeader { section: SidebarSection::Environments });
        proof { assert(lines(items@) =~= upto_collections + seq![Line::SectionHeader { section: SidebarSection::Environments }]); }
        let ghost head2 = lines(items@);
        if !section_listed(&self.collapsed_sections, SidebarSection::Environments) {
            let mut e: usize = 0;
            while e < self.environments.len()
                invariant
                    e <= self.environments@.len(),
                    lines(items@) == head2 + environment_lines(self.environments@.take(e as int), opt_text(self.active_env)),
                decreases self.environments@.len() - e,
            {
                let ghost before = lines(items@);
                let env = &self.environments[e];
                let active = match &self.active_env {
                    Some(a) => str_eq(a.as_str(), env.id.as_str()),
                    None => false,
                };
                items.push(SidebarItem::Environment { id: env.id.clone(), name: env.name.clone(), active });
                proof {
                    assert(lines(items@) =~= before.push(items@.last().line()));
                    assert(environment_lines(self.environments@.take(e + 1), opt_text(self.active_env)) =~= environment_lines(
                        self.environments@.take(e as int),
                        opt_text(self.active_env),
                    ).push(Line::Environment { id: env.id@, name: env.name@, active }));
                }
                e += 1;
            }
            proof { assert(self.environments@.take(self.environments@.len() as int) =~= self.environments@); }
        }
        let ghost upto_environments = lines(items@);
        items.push(SidebarItem::SectionHeader { section: SidebarSection::History });
        proof { assert(lines(items@) =~= upto_environments + seq![Line::SectionHeader { section: SidebarSection::History }]); }
        let ghost head3 = lines(items@);
        let ghost mut nows: Seq<Timestamp> = Seq::empty();
        if !section_listed(&self.collapsed_sections, SidebarSection::History) {
            let mut h: usize = 0;
            while h < self.history.len()
                invariant
                    h <= self.history@.len(),
                    nows.len() == h,
                    lines(items@) == head3 + history_lines(self.history@.take(h as int), nows),
                decreases self.history@.len() - h,
            {
                let ghost before = lines(items@);
                let entry = &self.history[h];
                let time_ago = relative_time(entry.timestamp);
                let ghost now = choose|now: Timestamp| time_ago@ == ago_text(magnitude(#[trigger] whole_seconds_between(now, entry.timestamp)));
                items.push(SidebarItem::HistoryEntry {
                    id: entry.id.clone(),
                    method: entry.method.clone(),
                    url: entry.url.clone(),
                    status: entry.status,
                    time_ago,
                });
                proof {
                    assert(lines(items@) =~= before.push(items@.last().line()));
                    let next = nows.push(now);
                    assert(history_lines(self.history@.take(h + 1), next) =~= history_lines(
                        self.history@.take(h as int),
                        nows,
                    ).push(items@.last().line()));
                    nows = next;
                }
                h += 1;
            }
            proof { assert(self.history@.take(self.history@.len() as int) =~= self.history@); }
        }
        proof { assert(lines(items@) =~= self.expected_lines(nows)); }
        let n = items.len();
        self.items = items;
        if n == 0 {
            self.selected_index = 0;
        } else if self.selected_index >= n {
            self.selected_index = n - 1;
        }
    }
}

/// The depth of the folders of each collection stays below the largest index.
pub open spec fn collections_fit(cs: Seq<Collection>) -> bool {
    forall|i: int| 0 <= i < cs.len() ==> 1 + items_depth(#[trigger] cs[i].items@) <= usize::MAX
}

impl Sidebar {
    /// What collapsing the selected line does: a section, a collection or a
    /// folder not yet collapsed is added to those collapsed and the lines are
    /// drawn again; any other line is left as it is.
    pub open spec fn collapsed_from(self, old: Sidebar) -> bool {
        let sel = old.selected_index as int;
        if sel < old.items@.len() {
            match old.items@[sel] {
                SidebarItem::SectionHeader { section } => if old.collapsed_sections@.contains(section) {
                    self == old
                } else {
                    &&& self.collapsed_sections@ == old.collapsed_sections@.push(section)
                    &&& self.rebuilt_from(Sidebar { collapsed_sections: self.collapsed_sections, ..old })
                },
                SidebarItem::CollectionHeader { id, name: _ } => if texts(old.collapsed_collections@).contains(id@) {
                    self == old
                } else {
                    &&& self.collapsed_collections@ == old.collapsed_collections@.push(id)
                    &&& self.rebuilt_from(Sidebar { collapsed_collections: self.collapsed_collections, ..old })
                },
                SidebarItem::CollectionFolder { name, depth: _ } => if folder_keys(old.collapsed_folders@).contains(
                    seq![name@],
                ) {
                    self == old
                } else {
                    &&& folder_keys(self.collapsed_folders@) == folder_keys(old.collapsed_folders@).push(seq![name@])
                    &&& self.rebuilt_from(Sidebar { collapsed_folders: self.collapsed_folders, ..old })
                },
                _ => self == old,
            }
        } else {
            self == old
        }
    }

    /// What expanding the selected line does: a section, collection or folder
    /// is taken out of those collapsed and the lines are drawn again; any
    /// other line is left as it is.
    pub open spec fn expanded_from(self, old: Sidebar) -> bool {
        let sel = old.selected_index as int;
        if sel < old.items@.len() {
            match old.items@[sel] {
                SidebarItem::SectionHeader { section } => {
                    &&& self.collapsed_sections@ == old.collapsed_sections@.filter(|x: SidebarSection| x != section)
                    &&& self.rebuilt_from(Sidebar { collapsed_sections: self.collapsed_sections, ..old })
                },
                SidebarItem::CollectionHeader { id, name: _ } => {
                    &&& self.collapsed_collections@ == old.collapsed_collections@.filter(|x: String| x@ != id@)
                    &&& self.rebuilt_from(Sidebar { collapsed_collections: self.collapsed_collections, ..old })
                },
                SidebarItem::CollectionFolder { name, depth: _ } => {
                    &&& self.collapsed_folders@ == old.collapsed_folders@.filter(
                        |k: Vec<String>| texts(k@) != seq![name@],
                    )
                    &&& self.rebuilt_from(Sidebar { collapsed_folders: self.collapsed_folders, ..old })
                },
                _ => self == old,
            }
        } else {
            self == old
        }
    }

    /// What activating the selected line does: an environment becomes the
    /// active one, or stops being it if it was; other lines are left as they are.
    pub open spec fn activated_from(self, old: Sidebar) -> bool {
        let sel = old.selected_index as int;
        if sel < old.items@.len() {
            match old.items@[sel] {
                SidebarItem::Environment { id, name: _, active: _ } => {
                    &&& (if opt_text(old.active_env) == Some(id@) {
                        self.active_env is None
                    } else {
                        self.active_env == Some(id)
                    })
                    &&& self.rebuilt_from(Sidebar { active_env: self.active_env, ..old })
                },
                _ => self == old,
            }
        } else {
            self == old
        }
    }

    /// What a key does. While the filter is being typed, keys edit it and
    /// the lines are drawn again, Esc clearing it and Enter keeping it; every
    /// key is used. Otherwise keys move the selection, collapse, expand or
    /// activate the selected line, or start a new filter.
    pub open spec fn key_step(self, old: Sidebar, key: Key, r: bool) -> bool {
        let sel = old.selected_index as int;
        let len = old.items@.len() as int;
        let last = if len > 0 { len - 1 } else { 0 };
        if old.filter_active {
            r && match key {
                Key::Esc => self.filter@.len() == 0 && self.rebuilt_from(
                    Sidebar { filter_active: false, filter: self.filter, ..old },
                ),
                Key::Enter => self.rebuilt_from(Sidebar { filter_active: false, ..old }),
                Key::Backspace => self.filter@ == (if old.filter@.len() > 0 {
                    old.filter@.drop_last()
                } else {
                    old.filter@
                }) && self.rebuilt_from(Sidebar { filter: self.filter, ..old }),
                Key::Char(c) => self.filter@ == old.filter@.push(c) && self.rebuilt_from(
                    Sidebar { filter: self.filter, ..old },
                ),
                _ => self == old,
            }
        } else {
            match key {
                Key::Char('j') | Key::Down => r && self == (Sidebar {
                    selected_index: (if sel + 1 < last { sel + 1 } else { last }) as usize,
                    ..old
                }),
                Key::Char('k') | Key::Up => r && self == (Sidebar {
                    selected_index: (if sel > 0 { sel - 1 } else { 0 }) as usize,
                    ..old
                }),
                Key::Char('h') | Key::Left => r && self.collapsed_from(old),
                Key::Char('l') | Key::Right => r && self.expanded_from(old),
                Key::Enter => r && self.activated_from(old),
                Key::Char('/') => r && self.filter@.len() == 0 && self == (Sidebar {
                    filter_active: true,
                    filter: self.filter,
                    ..old
                }),
                Key::Char('g') => r && self == (Sidebar { selected_index: 0, ..old }),
                Key::Char('G') => r && self == (Sidebar { selected_index: last as usize, ..old }),
                _ => !r && self == old,
            }
        }
    }

    pub fn set_collections(&mut self, collections: Vec<Collection>)
        requires
            collections_fit(collections@),
        ensures
            final(self).rebuilt_from(Sidebar { collections, ..*old(self) }),
    {
        self.collections = collections;
        self.rebuild_items();
    }

    pub fn set_environments(&mut self, environments: Vec<Environment>, active_env: Option<String>)
        requires
            old(self).depths_fit(),
        ensures
            final(self).rebuilt_from(Sidebar { environments, active_env, ..*old(self) }),
    {
        self.environments = environments;
        self.active_env = active_env;
        self.rebuild_items();
    }

    pub fn set_history(&mut self, history: Vec<HistoryEntry>)
        requires
            old(self).depths_fit(),
        ensures
            final(self).rebuilt_from(Sidebar { history, ..*old(self) }),
    {
        self.history = history;
        self.rebuild_items();
    }

    pub fn get_history(&self) -> (r: &[HistoryEntry])
        ensures
            r@ == self.history@,
    {
        self.history.as_slice()
    }

    /// The history entry of the selected line: the first entry with its id.
    pub fn selected_history_entry(&self) -> (r: Option<&HistoryEntry>)
        ensures
            match r {
                Some(e) => self.selected_index < self.items@.len() && exists|j: int|
                    0 <= j < self.history@.len() && self.history@[j] == *e && (
                    self.items@[self.selected_index as int] matches SidebarItem::HistoryEntry { id, .. }
                        && e.id@ == id@ && forall|k: int| 0 <= k < j ==> self.history@[k].id@ != id@),
                None => !(self.selected_index < self.items@.len() && self.items@[self.selected_index as int] is HistoryEntry)
                    || (self.items@[self.selected_index as int] matches SidebarItem::HistoryEntry { id, .. }
                    && forall|k: int| 0 <= k < self.history@.len() ==> self.history@[k].id@ != id@),
            },
    {
        if self.selected_index >= self.items.len() {
            return None;
        }
        match &self.items[self.selected_index] {
            SidebarItem::HistoryEntry { id, .. } => {
                let mut j: usize = 0;
                while j < self.history.len()
                    invariant
                        j <= self.history@.len(),
                        self.selected_index < self.items@.len(),
                        self.items@[self.selected_index as int] matches SidebarItem::HistoryEntry { id: i2, .. } && i2@ == id@,
                        forall|k: int| 0 <= k < j ==> self.history@[k].id@ != id@,
                    decreases self.history@.len() - j,
                {
                    if str_eq(self.history[j].id.as_str(), id.as_str()) {
                        let e = &self.history[j];
                        proof {
                            assert(self.items@[self.selected_index as int] matches SidebarItem::HistoryEntry { id: i2, .. }
                                && e.id@ == i2@ && forall|k: int| 0 <= k < j ==> self.history@[k].id@ != i2@);
                            assert(0 <= j < self.history@.len() && self.history@[j as int] == *e);
                        }
                        return Some(e);
                    }
                    j += 1;
                }
                None
            },
            _ => None,
        }
    }

    pub fn selected_index(&self) -> (r: usize)
        ensures
            r == self.selected_index,
    {
        self.selected_index
    }

    pub fn filter(&self) -> (r: &str)
        ensures
            r@ == self.filter@,
    {
        self.filter.as_str()
    }

    pub fn selected_item(&self) -> (r: Option<&SidebarItem>)
        ensures
            r == (if self.selected_index < self.items@.len() {
                Some(&self.items@[self.selected_index as int])
            } else {
                None
            }),
    {
        if self.selected_index < self.items.len() {
            Some(&self.items[self.selected_index])
        } else {
            None
        }
    }

    /// Handles a key; gives whether the sidebar used it.
    pub fn handle_key(&mut self, key: &Key) -> (r: bool)
        requires
            old(self).depths_fit(),
            !old(self).filter_active && (*key == Key::Down || *key == Key::Char('j')) ==> old(self).selected_index
                < usize::MAX,
        ensures
            final(self).key_step(*old(self), *key, r),
    {
        if self.filter_active {
            return self.handle_filter_key(key);
        }
        match key {
            Key::Char('j') | Key::Down => {
                let next = self.selected_index + 1;
                let last = self.items.len().saturating_sub(1);
                self.selected_index = if next < last { next } else { last };
                true
            },
            Key::Char('k') | Key::Up => {
                self.selected_index = self.selected_index.saturating_sub(1);
                true
            },
            Key::Char('h') | Key::Left => {
                self.collapse_current();
                true
            },
            Key::Char('l') | Key::Right => {
                self.expand_current();
                true
            },
            Key::Enter => {
                self.activate_current();
                true
            },
            Key::Char('/') => {
                self.filter_active = true;
                self.filter = String::new();
                true
            },
            Key::Char('g') => {
                self.selected_index = 0;
                true
            },
            Key::Char('G') => {
                self.selected_index = self.items.len().saturating_sub(1);
                true
            },
            _ => false,
        }
    }

    fn handle_filter_key(&mut self, key: &Key) -> (r: bool)
        requires
            old(self).depths_fit(),
            old(self).filter_active,
        ensures
            final(self).key_step(*old(self), *key, r),
    {
        match key {
            Key::Esc => {
                self.filter_active = false;
                self.filter = String::new();
                self.rebuild_items();
            },
            Key::Enter => {
                self.filter_active = false;
                self.rebuild_items();
            },
            Key::Backspace => {
                pop_char(&mut self.filter);
                self.rebuild_items();
            },
            Key::Char(c) => {
                push_char(&mut self.filter, *c);
                self.rebuild_items();
            },
            _ => {},
        }
        true
    }

    fn collapse_current(&mut self)
        requires
            old(self).depths_fit(),
        ensures
            final(self).collapsed_from(*old(self)),
    {
        if self.selected_index >= self.items.len() {
            return;
        }
        match &self.items[self.selected_index] {
            SidebarItem::SectionHeader { section } => {
                let s = *section;
                if !section_listed(&self.collapsed_sections, s) {
                    self.collapsed_sections.push(s);
                    self.rebuild_items();
                }
            },
            SidebarItem::CollectionHeader { id, .. } => {
                if !string_listed(&self.collapsed_collections, id.as_str()) {
                    let key = id.clone();
                    self.collapsed_collections.push(key);
                    self.rebuild_items();
                }
            },
            SidebarItem::CollectionFolder { name, .. } => {
                if !folder_listed(&self.collapsed_folders, name.as_str()) {
                    let mut key: Vec<String> = Vec::new();
                    key.push(name.clone());
                    proof { assert(texts(key@) =~= seq![name@]); }
                    let ghost before = self.collapsed_folders@;
                    self.collapsed_folders.push(key);
                    proof { assert(folder_keys(self.collapsed_folders@) =~= folder_keys(before).push(seq![name@])); }
                    self.rebuild_items();
                }
            },
            _ => {},
        }
    }

    fn expand_current(&mut self)
        requires
            old(self).depths_fit(),
        ensures
            final(self).expanded_from(*old(self)),
    {
        if self.selected_index >= self.items.len() {
            return;
        }
        match &self.items[self.selected_index] {
            SidebarItem::SectionHeader { section } => {
                let s = *section;
                remove_section(&mut self.collapsed_sections, s);
                self.rebuild_items();
            },
            SidebarItem::CollectionHeader { id, .. } => {
                let key = id.clone();
                remove_string(&mut self.collapsed_collections, key.as_str());
                self.rebuild_items();
            },
            SidebarItem::CollectionFolder { name, .. } => {
                let key = name.clone();
                remove_folder(&mut self.collapsed_folders, key.as_str());
                self.rebuild_items();
            },
            _ => {},
        }
    }

    fn activate_current(&mut self)
        requires
            old(self).depths_fit(),
        ensures
            final(self).activated_from(*old(self)),
    {
        if self.selected_index >= self.items.len() {
            return;
        }
        match &self.items[self.selected_index] {
            SidebarItem::Environment { id, .. } => {
                let same = match &self.active_env {
                    Some(a) => str_eq(a.as_str(), id.as_str()),
                    None => false,
                };
                if same {
                    self.active_env = None;
                } else {
                    self.active_env = Some(id.clone());
                }
                self.rebuild_items();
            },
            _ => {},
        }
    }

    /// The id of the active environment.
    pub fn active_environment_id(&self) -> (r: Option<String>)
        ensures
            r == self.active_env,
    {
        match &self.active_env {
            Some(a) => Some(a.clone()),
            None => None,
        }
    }

    /// Collapses a section that is open, opens one that is collapsed.
    pub fn toggle_section(&mut self, section: SidebarSection)
        requires
            old(self).depths_fit(),
        ensures
            final(self).collapsed_sections@ == if old(self).collapsed_sections@.contains(section) {
                old(self).collapsed_sections@.filter(|x: SidebarSection| x != section)
            } else {
                old(self).collapsed_sections@.push(section)
            },
            final(self).rebuilt_from(Sidebar { collapsed_sections: final(self).collapsed_sections, ..*old(self) }),
    {
        if section_listed(&self.collapsed_sections, section) {
            remove_section(&mut self.collapsed_sections, section);
        } else {
            self.collapsed_sections.push(section);
        }
        self.rebuild_items();
    }

    /// Empties the history.
    pub fn clear_history_items(&mut self)
        requires
            old(self).depths_fit(),
        ensures
            final(self).history@.len() == 0,
            final(self).rebuilt_from(Sidebar { history: final(self).history, ..*old(self) }),
    {
        self.history = Vec::new();
        self.rebuild_items();
    }
}

impl Default for Sidebar {
    fn default() -> (r: Self) {
        Sidebar::new()
    }
}


/// `n` copies of `s`, one after the other.
pub open spec fn repeat_text(s: Seq<char>, n: nat) -> Seq<char>
    decreases n,
{
    if n == 0 {
        Seq::empty()
    } else {
        repeat_text(s, (n - 1) as nat) + s
    }
}

/// The arrow of a fold: pointing right when folded, down when open.
pub open spec fn fold_icon(folded: bool) -> Seq<char> {
    if folded {
        "▸"@
    } else {
        "▾"@
    }
}

/// The heading of a section.
pub open spec fn section_name(s: SidebarSection) -> Seq<char> {
    match s {
        SidebarSection::Collections => "COLLECTIONS"@,
        SidebarSection::Environments => "ENVIRONMENTS"@,
        SidebarSection::History => "HISTORY"@,
    }
}

/// The width left after `used` columns, never below zero.
pub open spec fn room(width: int, used: int) -> nat {
    if width > used {
        (width - used) as nat
    } else {
        0
    }
}

/// The color of a request method: GET success, POST info, PUT and PATCH
/// warning, DELETE error, any other the foreground.
pub open spec fn method_color(theme: Theme, m: Seq<char>) -> ColorDef {
    if m == "GET"@ {
        theme.semantic.success
    } else if m == "POST"@ {
        theme.semantic.info
    } else if m == "PUT"@ || m == "PATCH"@ {
        theme.semantic.warning
    } else if m == "DELETE"@ {
        theme.semantic.error
    } else {
        theme.foreground
    }
}

/// The color of an answered status: success for 2xx, warning for 3xx and
/// 4xx, error for 5xx, the foreground otherwise or without an answer.
pub open spec fn answer_color(theme: Theme, status: Option<u16>) -> ColorDef {
    match status {
        Some(s) => if 200 <= s < 300 {
            theme.semantic.success
        } else if 300 <= s < 500 {
            theme.semantic.warning
        } else if 500 <= s < 600 {
            theme.semantic.error
        } else {
            theme.foreground
        },
        None => theme.foreground,
    }
}

/// The status as text, `--` without an answer.
pub open spec fn answer_text(status: Option<u16>) -> Seq<char> {
    match status {
        Some(s) => decimal(s as nat),
        None => "--"@,
    }
}

/// The background of subtle areas: the pane's subtle color, else its
/// background, else the terminal's.
pub open spec fn subtle_of(theme: Theme) -> ColorDef {
    match theme.pane.subtle_background {
        Some(c) => c,
        None => match theme.pane.background {
            Some(c) => c,
            None => ColorDef::Reset,
        },
    }
}

/// Rows of styled pieces as plain values.
pub open spec fn rows_view(rows: Seq<Vec<StyledSpan>>) -> Seq<Seq<(Seq<char>, Option<ColorDef>, Option<ColorDef>, bool)>> {
    rows.map_values(|r: Vec<StyledSpan>| styled_view(r@))
}

/// One plain piece.
fn piece(text: String, fg: ColorDef, bold: bool) -> (r: StyledSpan)
    ensures
        r.text@ == text@,
        r.fg == Some(fg),
        r.bg is None,
        r.bold == bold,
{
    StyledSpan { text, fg: Some(fg), bg: None, bold }
}

/// A row of one piece.
fn single_row(p: StyledSpan) -> (r: Vec<StyledSpan>)
    ensures
        styled_view(r@) == seq![(p.text@, p.fg, p.bg, p.bold)],
{
    let mut v: Vec<StyledSpan> = Vec::new();
    v.push(p);
    proof { assert(styled_view(v@) =~= seq![(p.text@, p.fg, p.bg, p.bold)]); }
    v
}

/// `n` copies of two spaces.
fn indent_of(n: usize) -> (r: String)
    ensures
        r@ == repeat_text("  "@, n as nat),
{
    let mut out = String::new();
    let mut i: usize = 0;
    while i < n
        invariant
            i <= n,
            out@ == repeat_text("  "@, i as nat),
        decreases n - i,
    {
        push_str(&mut out, "  ");
        i += 1;
    }
    out
}

impl Sidebar {
    /// Every folder and request sits shallow enough for its indent to be counted.
    pub open spec fn indents_fit(&self) -> bool {
        forall|i: int|
            0 <= i < self.items@.len() ==> match #[trigger] self.items@[i] {
                SidebarItem::CollectionFolder { name: _, depth } => 2 * depth + 8 <= usize::MAX,
                SidebarItem::CollectionRequest { name: _, depth } => 2 * depth + 8 <= usize::MAX,
                _ => true,
            }
    }

    /// The rows drawn for one line of the sidebar `width` columns wide: a
    /// section heading with its fold; a collection or folder with its fold,
    /// indented by depth; a request; an environment marked when active; a
    /// history entry as method, status and age, then its URL. Names are cut
    /// to the room left.
    pub open spec fn line_rows(self, line: Line, width: int, theme: Theme) -> Seq<
        Seq<(Seq<char>, Option<ColorDef>, Option<ColorDef>, bool)>,
    > {
        let lw = room(width, 4) as int;
        match line {
            Line::SectionHeader { section } => seq![
                seq![
                    (
                        " "@ + fold_icon(self.collapsed_sections@.contains(section)) + " "@ + section_name(section)
                            + " "@,
                        Some(theme.pane.title),
                        Some(subtle_of(theme)),
                        true,
                    ),
                ],
            ],
            Line::CollectionHeader { id, name } => seq![
                seq![
                    (
                        "  "@ + fold_icon(texts(self.collapsed_collections@).contains(id)) + " "@ + truncated(
                            name,
                            room(lw, 4),
                        ) + " "@,
                        Some(theme.semantic.info),
                        None,
                        false,
                    ),
                ],
            ],
            Line::CollectionFolder { name, depth } => seq![
                seq![
                    (
                        repeat_text("  "@, depth + 1) + fold_icon(folder_keys(self.collapsed_folders@).contains(seq![name]))
                            + " "@ + truncated(name, room(lw, (2 * (depth + 1) + 4) as int)) + " "@,
                        Some(theme.semantic.warning),
                        None,
                        false,
                    ),
                ],
            ],
            Line::CollectionRequest { name, depth } => seq![
                seq![
                    (
                        repeat_text("  "@, depth + 2) + "▪ "@ + truncated(name, room(lw, (2 * (depth + 2) + 4) as int)) + " "@,
                        Some(theme.foreground),
                        None,
                        false,
                    ),
                ],
            ],
            Line::Environment { id: _, name, active } => seq![
                seq![
                    (
                        "  "@ + (if active { "●"@ } else { "○"@ }) + " "@ + truncated(name, room(lw, 6)) + " "@,
                        Some(if active { theme.semantic.success } else { theme.foreground }),
                        None,
                        false,
                    ),
                ],
            ],
            Line::HistoryEntry { id: _, method, url, status, time_ago } => seq![
                seq![
                    (" "@ + method + " "@, Some(method_color(theme, method)), None, true),
                    (answer_text(status) + " "@, Some(answer_color(theme, status)), None, true),
                    (time_ago, Some(theme.pane.muted), None, false),
                ],
                seq![("  "@ + truncated(url, room(lw, 12)), Some(theme.foreground), None, false)],
            ],
        }
    }

    /// Whether every folder and request sits shallow enough for its indent to be counted.
    pub fn fits_indents(&self) -> (r: bool)
        ensures
            r == self.indents_fit(),
    {
        let mut i: usize = 0;
        while i < self.items.len()
            invariant
                i <= self.items@.len(),
                forall|j: int|
                    0 <= j < i ==> match #[trigger] self.items@[j] {
                        SidebarItem::CollectionFolder { name: _, depth } => 2 * depth + 8 <= usize::MAX,
                        SidebarItem::CollectionRequest { name: _, depth } => 2 * depth + 8 <= usize::MAX,
                        _ => true,
                    },
            decreases self.items@.len() - i,
        {
            let ok = match &self.items[i] {
                SidebarItem::CollectionFolder { name: _, depth } => *depth <= (usize::MAX - 8) / 2,
                SidebarItem::CollectionRequest { name: _, depth } => *depth <= (usize::MAX - 8) / 2,
                _ => true,
            };
            if !ok {
                return false;
            }
            i += 1;
        }
        true
    }

    /// The rows of one item.
    fn item_rows(&self, item: &SidebarItem, width: usize, theme: &Theme) -> (r: Vec<Vec<StyledSpan>>)
        requires
            match *item {
                SidebarItem::CollectionFolder { name: _, depth } => 2 * depth + 8 <= usize::MAX,
                SidebarItem::CollectionRequest { name: _, depth } => 2 * depth + 8 <= usize::MAX,
                _ => true,
            },
        ensures
            rows_view(r@) == self.line_rows(item.line(), width as int, *theme),
    {
        let lw = width.saturating_sub(4);
        let mut rows: Vec<Vec<StyledSpan>> = Vec::new();
        match item {
            SidebarItem::SectionHeader { section } => {
                let mut t = copy_str(" ");
                push_str(&mut t, if section_listed(&self.collapsed_sections, *section) { "▸" } else { "▾" });
                push_str(&mut t, " ");
                push_str(
                    &mut t,
                    match section {
                        SidebarSection::Collections => "COLLECTIONS",
                        SidebarSection::Environments => "ENVIRONMENTS",
                        SidebarSection::History => "HISTORY",
                    },
                );
                push_str(&mut t, " ");
                rows.push(single_row(StyledSpan { text: t, fg: Some(theme.pane.title), bg: Some(theme.subtle_bg()), bold: true }));
            },
            SidebarItem::CollectionHeader { id, name } => {
                let mut t = copy_str("  ");
                push_str(&mut t, if string_listed(&self.collapsed_collections, id) { "▸" } else { "▾" });
                push_str(&mut t, " ");
                push_str(&mut t, &truncate_text(name, lw.saturating_sub(4)));
                push_str(&mut t, " ");
                rows.push(single_row(piece(t, theme.semantic.info, false)));
            },
            SidebarItem::CollectionFolder { name, depth } => {
                let mut t = indent_of(*depth + 1);
                push_str(&mut t, if folder_listed(&self.collapsed_folders, name) { "▸" } else { "▾" });
                push_str(&mut t, " ");
                push_str(&mut t, &truncate_text(name, lw.saturating_sub(2 * (*depth + 1) + 4)));
                push_str(&mut t, " ");
                rows.push(single_row(piece(t, theme.semantic.warning, false)));
            },
            SidebarItem::CollectionRequest { name, depth } => {
                let mut t = indent_of(*depth + 2);
                push_str(&mut t, "▪ ");
                push_str(&mut t, &truncate_text(name, lw.saturating_sub(2 * (*depth + 2) + 4)));
                push_str(&mut t, " ");
                rows.push(single_row(piece(t, theme.foreground, false)));
            },
            SidebarItem::Environment { id: _, name, active } => {
                let mut t = copy_str("  ");
                push_str(&mut t, if *active { "●" } else { "○" });
                push_str(&mut t, " ");
                push_str(&mut t, &truncate_text(name, lw.saturating_sub(6)));
                push_str(&mut t, " ");
                rows.push(single_row(piece(t, if *active { theme.semantic.success } else { theme.foreground }, false)));
            },
            SidebarItem::HistoryEntry { id: _, method, url, status, time_ago } => {
                let mcolor = if str_eq(method, "GET") {
                    theme.semantic.success
                } else if str_eq(method, "POST") {
                    theme.semantic.info
                } else if str_eq(method, "PUT") || str_eq(method, "PATCH") {
                    theme.semantic.warning
                } else if str_eq(method, "DELETE") {
                    theme.semantic.error
                } else {
                    theme.foreground
                };
                let (stext, scolor) = match status {
                    Some(code) => {
                        let mut t = String::new();
                        push_decimal(&mut t, *code as u64);
                        let c = if 200 <= *code && *code < 300 {
                            theme.semantic.success
                        } else if 300 <= *code && *code < 500 {
                            theme.semantic.warning
                        } else if 500 <= *code && *code < 600 {
                            theme.semantic.error
                        } else {
                            theme.foreground
                        };
                        (t, c)
                    },
                    None => (copy_str("--"), theme.foreground),
                };
                let mut m = copy_str(" ");
                push_str(&mut m, method);
                push_str(&mut m, " ");
                let mut st = stext;
                push_str(&mut st, " ");
                let mut first: Vec<StyledSpan> = Vec::new();
                first.push(piece(m, mcolor, true));
                first.push(piece(st, scolor, true));
                first.push(piece(time_ago.clone(), theme.muted_color(), false));
                let mut u = copy_str("  ");
                push_str(&mut u, &truncate_text(url, lw.saturating_sub(12)));
                let ghost fv = styled_view(first@);
                rows.push(first);
                rows.push(single_row(piece(u, theme.foreground, false)));
                proof {
                    assert(fv =~= seq![
                        (" "@ + method@ + " "@, Some(method_color(*theme, method@)), None::<ColorDef>, true),
                        (answer_text(*status) + " "@, Some(answer_color(*theme, *status)), None::<ColorDef>, true),
                        (time_ago@, Some(theme.pane.muted), None::<ColorDef>, false),
                    ]);
                }
            },
        }
        proof { assert(rows_view(rows@) =~= self.line_rows(item.line(), width as int, *theme)); }
        rows
    }

    /// The rows drawn for each line of a sidebar `width` columns wide, line by line.
    pub fn display_rows(&self, width: u16, theme: &Theme) -> (r: Vec<Vec<Vec<StyledSpan>>>)
        requires
            self.indents_fit(),
        ensures
            r@.len() == self.items@.len(),
            forall|i: int|
                0 <= i < r@.len() ==> rows_view(#[trigger] r@[i]@) == self.line_rows(
                    self.items@[i].line(),
                    width as int,
                    *theme,
                ),
    {
        let mut out: Vec<Vec<Vec<StyledSpan>>> = Vec::new();
        let mut i: usize = 0;
        while i < self.items.len()
            invariant
                i <= self.items@.len(),
                self.indents_fit(),
                out@.len() == i,
                forall|j: int|
                    0 <= j < i ==> rows_view(#[trigger] out@[j]@) == self.line_rows(
                        self.items@[j].line(),
                        width as int,
                        *theme,
                    ),
            decreases self.items@.len() - i,
        {
            let rows = self.item_rows(&self.items[i], width as usize, theme);
            out.push(rows);
            i += 1;
        }
        out
    }
}

} // verus!
