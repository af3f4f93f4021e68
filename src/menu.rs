use vstd::prelude::*;
use vstd::string::StrSliceExecFns;
use crate::console::{all_digits, digits_value, lemma_digits_value_prefix_bound};
use crate::text::same_text;

verus! {

/// Whether a menu link opens a page or triggers an action.
#[derive(Debug, Clone, Copy, PartialEq, Eq, Structural)]
pub enum MenuUrlKind {
    Page,
    Action,
}

/// A link inside the chat menu: a target name and its arguments.
#[derive(Debug)]
pub struct MenuUrl {
    pub kind: MenuUrlKind,
    pub url: String,
    pub arguments: Vec<String>,
}

/// The navigation state of one chat menu: the pages visited, and where it is now.
#[derive(Debug)]
pub struct MenuHistory {
    pub history: Vec<MenuUrl>,
    pub current: MenuUrl,
}

pub open spec fn strings_view(v: Seq<String>) -> Seq<Seq<char>> {
    v.map_values(|s: String| s@)
}

pub open spec fn strs_view(v: Seq<&str>) -> Seq<Seq<char>> {
    v.map_values(|s: &str| s@)
}

pub open spec fn urls_view(v: Seq<MenuUrl>) -> Seq<(MenuUrlKind, Seq<char>, Seq<Seq<char>>)> {
    v.map_values(|u: MenuUrl| u@)
}

impl View for MenuUrl {
    type V = (MenuUrlKind, Seq<char>, Seq<Seq<char>>);

    open spec fn view(&self) -> Self::V {
        (self.kind, self.url@, strings_view(self.arguments@))
    }
}

impl View for MenuHistory {
    type V = (Seq<(MenuUrlKind, Seq<char>, Seq<Seq<char>>)>, (MenuUrlKind, Seq<char>, Seq<Seq<char>>));

    open spec fn view(&self) -> Self::V {
        (urls_view(self.history@), self.current@)
    }
}

fn owned_strings(args: &[&str]) -> (r: Vec<String>)
    ensures
        strings_view(r@) == strs_view(args@),
{
    let mut out: Vec<String> = Vec::new();
    let mut i: usize = 0;
    while i < args.len()
        invariant
            i <= args.len(),
            out@.len() == i,
            forall|k: int| 0 <= k < i ==> #[trigger] out@[k]@ == args@[k]@,
        decreases args.len() - i,
    {
        let ghost before = out@;
        let o = args[i].to_owned();
        out.push(o);
        proof {
            assert(o@ == args@[i as int]@);
            assert(out@ == before.push(o));
        }
        i = i + 1;
    }
    proof { assert(strings_view(out@) =~= strs_view(args@)); }
    out
}

impl MenuUrl {
    /// A link to the page `name`.
    pub fn page(name: &str, args: &[&str]) -> (r: MenuUrl)
        ensures
            r@ == (MenuUrlKind::Page, name@, strs_view(args@)),
    {
        MenuUrl { kind: MenuUrlKind::Page, url: name.to_owned(), arguments: owned_strings(args) }
    }

    /// A link that triggers the action `name`.
    pub fn action(name: &str, args: &[&str]) -> (r: MenuUrl)
        ensures
            r@ == (MenuUrlKind::Action, name@, strs_view(args@)),
    {
        MenuUrl { kind: MenuUrlKind::Action, url: name.to_owned(), arguments: owned_strings(args) }
    }

    /// A copy of the link.
    pub fn duplicate(&self) -> (r: MenuUrl)
        ensures
            r@ == self@,
    {
        let mut args: Vec<String> = Vec::new();
        let mut i: usize = 0;
        while i < self.arguments.len()
            invariant
                i <= self.arguments.len(),
                args@.len() == i,
                forall|k: int| 0 <= k < i ==> #[trigger] args@[k] == self.arguments@[k],
            decreases self.arguments.len() - i,
        {
            let ghost before = args@;
            let o = self.arguments[i].clone();
            args.push(o);
            proof {
                assert(o == self.arguments@[i as int]);
                assert(args@ == before.push(o));
            }
            i = i + 1;
        }
        proof { assert(strings_view(args@) =~= strings_view(self.arguments@)); }
        MenuUrl { kind: self.kind, url: self.url.clone(), arguments: args }
    }
}

/// The history after leaving the current page: the most recent page in `history`
/// becomes current and everything after it is dropped (actions are skipped); `None`
/// when no page is left to go back to.
pub open spec fn exit_page_spec<U>(history: Seq<(MenuUrlKind, U)>) -> Option<(Seq<(MenuUrlKind, U)>, (MenuUrlKind, U))>
    decreases history.len(),
{
    if history.len() == 0 {
        None
    } else if history.last().0 == MenuUrlKind::Page {
        Some((history.drop_last(), history.last()))
    } else {
        exit_page_spec(history.drop_last())
    }
}

pub open spec fn kinds_view(h: Seq<(MenuUrlKind, Seq<char>, Seq<Seq<char>>)>) -> Seq<(MenuUrlKind, (Seq<char>, Seq<Seq<char>>))> {
    h.map_values(|u: (MenuUrlKind, Seq<char>, Seq<Seq<char>>)| (u.0, (u.1, u.2)))
}

impl MenuHistory {
    /// A menu that starts on the page `main`.
    pub fn new(main: &str) -> (r: MenuHistory)
        ensures
            r@.0 == Seq::<(MenuUrlKind, Seq<char>, Seq<Seq<char>>)>::empty(),
            r@.1 == (MenuUrlKind::Page, main@, Seq::<Seq<char>>::empty()),
    {
        let args: [&str; 0] = [];
        let current = MenuUrl::page(main, args.as_slice());
        proof { assert(strs_view(args@) =~= Seq::<Seq<char>>::empty()); }
        let r = MenuHistory { history: Vec::new(), current };
        proof { assert(r@.0 =~= Seq::<(MenuUrlKind, Seq<char>, Seq<Seq<char>>)>::empty()); }
        r
    }

    /// Opens `url`: the current link joins the history.
    pub fn enter_page(&self, url: MenuUrl) -> (r: MenuHistory)
        ensures
            r@.0 == self@.0.push(self@.1),
            r@.1 == url@,
    {
        let mut history: Vec<MenuUrl> = Vec::new();
        let mut i: usize = 0;
        while i < self.history.len()
            invariant
                i <= self.history.len(),
                history@.len() == i,
                forall|k: int| 0 <= k < i ==> (#[trigger] history@[k])@ == self.history@[k]@,
            decreases self.history.len() - i,
        {
            let ghost before = history@;
            let d = self.history[i].duplicate();
            history.push(d);
            proof {
                assert(history@ == before.push(d));
            }
            i = i + 1;
        }
        let ghost before = history@;
        let c = self.current.duplicate();
        history.push(c);
        proof {
            assert(history@ == before.push(c));
            assert(urls_view(history@) =~= self@.0.push(self@.1));
        }
        MenuHistory { history, current: url }
    }

    /// Goes back to the most recent page before the current one.
    pub fn exit_page(&self) -> (r: Option<MenuHistory>)
        ensures
            match exit_page_spec(kinds_view(self@.0)) {
                None => r is None,
                Some((h, c)) => r matches Some(m) && kinds_view(m@.0) == h && (m@.1.0, (m@.1.1, m@.1.2)) == c,
            },
    {
        let ghost all = kinds_view(self@.0);
        let mut end: usize = self.history.len();
        proof { assert(all.subrange(0, end as int) =~= all); }
        while end > 0 && self.history[end - 1].kind != MenuUrlKind::Page
            invariant
                all == kinds_view(self@.0),
                all.len() == self.history.len(),
                end <= self.history.len(),
                exit_page_spec(all) == exit_page_spec(all.subrange(0, end as int)),
            decreases end,
        {
            proof {
                let s = all.subrange(0, end as int);
                assert(s.drop_last() =~= all.subrange(0, end - 1));
                assert(s.last() == all[end - 1]);
                assert(all[end - 1].0 == self.history@[end - 1].kind);
            }
            end = end - 1;
        }
        if end == 0 {
            proof { assert(all.subrange(0, 0) =~= Seq::<(MenuUrlKind, (Seq<char>, Seq<Seq<char>>))>::empty()); }
            return None;
        }
        let mut history: Vec<MenuUrl> = Vec::new();
        let mut i: usize = 0;
        while i < end - 1
            invariant
                all == kinds_view(self@.0),
                all.len() == self.history.len(),
                0 < end <= self.history.len(),
                i <= end - 1,
                history@.len() == i,
                forall|k: int| 0 <= k < i ==> (#[trigger] history@[k])@ == self.history@[k]@,
            decreases end - 1 - i,
        {
            let ghost before = history@;
            let d = self.history[i].duplicate();
            history.push(d);
            proof {
                assert(history@ == before.push(d));
                assert(d@ == self.history@[i as int]@);
            }
            i = i + 1;
        }
        proof { assert(kinds_view(urls_view(history@)) =~= all.subrange(0, end - 1)); }
        let current = self.history[end - 1].duplicate();
        let r = MenuHistory { history, current };
        proof {
            let s = all.subrange(0, end as int);
            assert(s.drop_last() =~= all.subrange(0, end - 1));
            assert(s.last() == all[end - 1]);
            assert(all[end - 1].0 == MenuUrlKind::Page);
        }
        Some(r)
    }
}

} // verus!

verus! {

/// A mod fetched from a chat attachment, waiting to be checked.
#[derive(Debug, Clone, PartialEq, Eq)]
pub struct DownloadedMod {
    pub server: String,
    pub att_name: String,
    pub file: String,
}

/// A chat attachment that could not be turned into a mod, with the reason.
#[derive(Debug, Clone, PartialEq, Eq)]
pub struct FuckedUpMod {
    pub server: String,
    pub att_name: String,
    pub err: String,
}

/// What a running poll decides on.
#[derive(Debug, Clone, PartialEq, Eq, Hash)]
pub enum PollKey {
    Mod { server: String, mod_id: String },
    Restore { server: String },
}

impl PollKey {
    /// The poll about a mod of a server.
    pub fn mod_op(server: String, mod_id: String) -> (r: PollKey)
        ensures
            r == (PollKey::Mod { server, mod_id }),
    {
        PollKey::Mod { server, mod_id }
    }
}

/// What an open transaction is about.
#[derive(Debug, Clone, PartialEq, Eq)]
pub enum TransactionKey {
    Mod { server: String },
    Other,
}

impl TransactionKey {
    /// The transaction on the mods of a server.
    pub fn mod_op(server: String) -> (r: TransactionKey)
        ensures
            r == (TransactionKey::Mod { server }),
    {
        TransactionKey::Mod { server }
    }
}

/// The work an open transaction carries out.
#[derive(Debug, Clone)]
pub enum TransactionKind {
    InstallMod { the_file: String, additional: Vec<String> },
    RemoveMod { mod_id: String },
}

#[derive(Debug)]
pub struct Transaction {
    pub kind: TransactionKind,
}

/// Access scopes of upload tokens.
#[allow(non_camel_case_types)]
#[derive(Debug, Clone, Copy, PartialEq, Eq, Hash, Structural)]
pub enum Scope {
    Assets_Mods,
}

} // verus!

verus! {

/// The menus handed out so far, by id. Ids are unique.
pub struct MenuTable {
    pub entries: Vec<(u128, MenuHistory)>,
}

/// The character of a decimal digit.
pub open spec fn digit_char(d: nat) -> char {
    if d == 0 { '0' } else if d == 1 { '1' } else if d == 2 { '2' } else if d == 3 { '3' }
    else if d == 4 { '4' } else if d == 5 { '5' } else if d == 6 { '6' } else if d == 7 { '7' }
    else if d == 8 { '8' } else { '9' }
}

/// The decimal digits of `n`.
pub open spec fn decimal(n: nat) -> Seq<char>
    decreases n,
{
    if n < 10 {
        seq![digit_char(n)]
    } else {
        decimal(n / 10) + seq![digit_char(n % 10)]
    }
}

fn digit_of(d: u128) -> (c: char)
    requires
        d < 10,
    ensures
        c == digit_char(d as nat),
{
    if d == 0 { '0' } else if d == 1 { '1' } else if d == 2 { '2' } else if d == 3 { '3' }
    else if d == 4 { '4' } else if d == 5 { '5' } else if d == 6 { '6' } else if d == 7 { '7' }
    else if d == 8 { '8' } else { '9' }
}

fn push_decimal(out: &mut String, n: u128)
    ensures
        final(out)@ == old(out)@ + decimal(n as nat),
    decreases n,
{
    if n >= 10 {
        push_decimal(out, n / 10);
    }
    crate::text::push_char(out, digit_of(n % 10));
    proof {
        if n >= 10 {
            assert(final(out)@ =~= old(out)@ + decimal(n as nat));
        } else {
            assert(final(out)@ =~= old(out)@ + decimal(n as nat));
        }
    }
}

/// How a menu id is read back: an optional `+`, then decimal digits whose value fits 128 bits.
pub open spec fn parse_id_spec(s: Seq<char>) -> Option<u128> {
    let d = if s.len() > 0 && s[0] == '+' { s.drop_first() } else { s };
    if d.len() > 0 && crate::console::all_digits(d) && crate::console::digits_value(d) <= u128::MAX {
        Some(crate::console::digits_value(d) as u128)
    } else {
        None
    }
}

} // verus!

verus! {

fn parse_id(s: &str) -> (r: Option<u128>)
    ensures
        r == parse_id_spec(s@),
{
    let n = s.unicode_len();
    let start: usize = if n > 0 && s.get_char(0) == '+' { 1 } else { 0 };
    let ghost d = if s@.len() > 0 && s@[0] == '+' { s@.drop_first() } else { s@ };
    proof { assert(d =~= s@.subrange(start as int, n as int)); }
    if start == n {
        return None;
    }
    let mut value: u128 = 0;
    let mut i: usize = start;
    while i < n
        invariant
            n == s@.len(),
            start <= i <= n,
            d == s@.subrange(start as int, n as int),
            d == (if s@.len() > 0 && s@[0] == '+' { s@.drop_first() } else { s@ }),
            d.len() > 0,
            all_digits(d.subrange(0, i - start)),
            value as int == digits_value(d.subrange(0, i - start)),
        decreases n - i,
    {
        let c = s.get_char(i);
        if c < '0' || c > '9' {
            proof {
                assert(d[i - start] == c);
                assert(!all_digits(d));
            }
            return None;
        }
        let digit = ((c as u32) - ('0' as u32)) as u128;
        proof {
            let p = d.subrange(0, i + 1 - start);
            assert(p.drop_last() =~= d.subrange(0, i - start));
            assert(p.last() == c);
            assert(all_digits(p));
        }
        if value > (u128::MAX - digit) / 10 {
            proof {
                let m = u128::MAX as int;
                assert(value as int * 10 + digit as int > m) by (nonlinear_arith)
                    requires
                        value as int > (m - digit as int) / 10,
                        0 <= digit <= 9,
                        m > 9,
                ;
                if all_digits(d) {
                    lemma_digits_value_prefix_bound(d, i + 1 - start);
                }
            }
            return None;
        }
        proof {
            let m = u128::MAX as int;
            assert(value as int * 10 + digit as int <= m) by (nonlinear_arith)
                requires
                    value as int <= (m - digit as int) / 10,
                    0 <= digit <= 9,
                    m > 9,
            ;
        }
        value = value * 10 + digit;
        i = i + 1;
    }
    proof { assert(d.subrange(0, n - start) =~= d); }
    Some(value)
}

impl MenuUrl {
    /// Whether two links are the same.
    pub fn same_as(&self, other: &MenuUrl) -> (r: bool)
        ensures
            r == (self@ == other@),
    {
        if self.kind != other.kind || !same_text(self.url.as_str(), other.url.as_str()) {
            return false;
        }
        if self.arguments.len() != other.arguments.len() {
            proof { assert(strings_view(self.arguments@).len() != strings_view(other.arguments@).len()); }
            return false;
        }
        let mut i: usize = 0;
        while i < self.arguments.len()
            invariant
                i <= self.arguments.len(),
                self.arguments.len() == other.arguments.len(),
                forall|k: int| 0 <= k < i ==> self.arguments@[k]@ == other.arguments@[k]@,
            decreases self.arguments.len() - i,
        {
            if !same_text(self.arguments[i].as_str(), other.arguments[i].as_str()) {
                proof { assert(strings_view(self.arguments@)[i as int] != strings_view(other.arguments@)[i as int]); }
                return false;
            }
            i = i + 1;
        }
        proof { assert(strings_view(self.arguments@) =~= strings_view(other.arguments@)); }
        true
    }
}

/// The menu stored under `id`, if any.
pub open spec fn menu_under(entries: Seq<(u128, MenuHistory)>, id: u128) -> Option<MenuHistory> {
    if exists|i: int| 0 <= i < entries.len() && #[trigger] entries[i].0 == id {
        let i = choose|i: int| 0 <= i < entries.len() && #[trigger] entries[i].0 == id;
        Some(entries[i].1)
    } else {
        None
    }
}

impl MenuTable {
    /// Ids are unique.
    pub open spec fn well_formed(&self) -> bool {
        forall|i: int, j: int| 0 <= i < self.entries@.len() && 0 <= j < self.entries@.len() && i != j
            ==> #[trigger] self.entries@[i].0 != #[trigger] self.entries@[j].0
    }

    pub fn new() -> (r: MenuTable)
        ensures
            r.well_formed(),
            r.entries@.len() == 0,
    {
        MenuTable { entries: Vec::new() }
    }
}

fn copy_urls(urls: &Vec<MenuUrl>) -> (r: Vec<MenuUrl>)
    ensures
        urls_view(r@) == urls_view(urls@),
{
    let mut out: Vec<MenuUrl> = Vec::new();
    let mut i: usize = 0;
    while i < urls.len()
        invariant
            i <= urls.len(),
            out@.len() == i,
            forall|k: int| 0 <= k < i ==> (#[trigger] out@[k])@ == urls@[k]@,
        decreases urls.len() - i,
    {
        let ghost before = out@;
        let d = urls[i].duplicate();
        out.push(d);
        proof { assert(out@ == before.push(d)); }
        i = i + 1;
    }
    proof { assert(urls_view(out@) =~= urls_view(urls@)); }
    out
}

impl MenuHistory {
    /// Whether two menus are in the same state.
    pub fn same_as(&self, other: &MenuHistory) -> (r: bool)
        ensures
            r == (self@ == other@),
    {
        if !self.current.same_as(&other.current) {
            return false;
        }
        if self.history.len() != other.history.len() {
            proof { assert(urls_view(self.history@).len() != urls_view(other.history@).len()); }
            return false;
        }
        let mut i: usize = 0;
        while i < self.history.len()
            invariant
                i <= self.history.len(),
                self.history.len() == other.history.len(),
                forall|k: int| 0 <= k < i ==> self.history@[k]@ == other.history@[k]@,
            decreases self.history.len() - i,
        {
            if !self.history[i].same_as(&other.history[i]) {
                proof { assert(urls_view(self.history@)[i as int] != urls_view(other.history@)[i as int]); }
                return false;
            }
            i = i + 1;
        }
        proof { assert(urls_view(self.history@) =~= urls_view(other.history@)); }
        true
    }

    /// The id under which this menu is kept in `table`: the id of an equal menu
    /// already there, or else `fresh` (a random draw), under which a copy is stored.
    /// `None` when the menu is new and `fresh` is taken: the caller draws again.
    pub fn to_id(&self, table: &mut MenuTable, fresh: u128) -> (r: Option<String>)
        requires
            old(table).well_formed(),
        ensures
            final(table).well_formed(),
            match r {
                Some(text) => exists|id: u128| text@ == decimal(id as nat)
                    && (#[trigger] menu_under(final(table).entries@, id) matches Some(m) && m@ == self@),
                None => final(table).entries@ == old(table).entries@
                    && menu_under(old(table).entries@, fresh) is Some
                    && forall|i: int| 0 <= i < old(table).entries.len() ==> (#[trigger] old(table).entries@[i]).1@ != self@,
            },
            forall|id: u128| #[trigger] menu_under(old(table).entries@, id) is Some
                ==> menu_under(final(table).entries@, id) == menu_under(old(table).entries@, id),
    {
        let mut i: usize = 0;
        let mut fresh_taken = false;
        while i < table.entries.len()
            invariant
                i <= table.entries.len(),
                table.well_formed(),
                table.entries@ == old(table).entries@,
                forall|k: int| 0 <= k < i ==> (#[trigger] table.entries@[k]).1@ != self@,
                fresh_taken ==> exists|k: int| 0 <= k < i && #[trigger] table.entries@[k].0 == fresh,
                !fresh_taken ==> forall|k: int| 0 <= k < i ==> (#[trigger] table.entries@[k]).0 != fresh,
            decreases table.entries.len() - i,
        {
            if table.entries[i].0 == fresh {
                fresh_taken = true;
            }
            if table.entries[i].1.same_as(self) {
                let id = table.entries[i].0;
                let mut text = String::new();
                push_decimal(&mut text, id);
                proof {
                    assert(text@ =~= decimal(id as nat));
                    assert(table.entries@[i as int].0 == id);
                    let j = choose|j: int| 0 <= j < table.entries.len() && #[trigger] table.entries@[j].0 == id;
                    if j != i {
                        assert(table.entries@[j].0 != table.entries@[i as int].0);
                    }
                }
                return Some(text);
            }
            i = i + 1;
        }
        if fresh_taken {
            return None;
        }
        let ghost before = table.entries@;
        let copy = self.current.duplicate();
        let stored = MenuHistory { history: copy_urls(&self.history), current: copy };
        table.entries.push((fresh, stored));
        let mut text = String::new();
        push_decimal(&mut text, fresh);
        proof {
            let n = before.len() as int;
            assert(text@ =~= decimal(fresh as nat));
            assert(table.entries@ == before.push((fresh, stored)));
            assert(forall|k: int| 0 <= k < n ==> before[k].0 != fresh);
            assert forall|x: int, y: int| 0 <= x < table.entries.len() && 0 <= y < table.entries.len() && x != y
                implies #[trigger] table.entries@[x].0 != #[trigger] table.entries@[y].0 by {
                if x < n && y < n {
                    assert(before[x].0 != before[y].0);
                }
            }
            assert(table.entries@[n].0 == fresh);
            let j = choose|j: int| 0 <= j < table.entries.len() && #[trigger] table.entries@[j].0 == fresh;
            if j != n {
                assert(table.entries@[j].0 != table.entries@[n].0);
            }
            assert forall|id: u128| #[trigger] menu_under(before, id) is Some
                implies menu_under(table.entries@, id) == menu_under(before, id) by {
                let a = choose|a: int| 0 <= a < before.len() && #[trigger] before[a].0 == id;
                assert(table.entries@[a] == before[a]);
                let b = choose|b: int| 0 <= b < table.entries.len() && #[trigger] table.entries@[b].0 == id;
                if b != a {
                    assert(table.entries@[b].0 != table.entries@[a].0);
                }
            }
        }
        Some(text)
    }

    /// The menu kept in `table` under the id written in `text`; a fresh menu on the
    /// page `broken-<text>` when the text is no id or no menu is kept under it.
    pub fn from_id(text: &str, table: &MenuTable) -> (r: MenuHistory)
        requires
            table.well_formed(),
        ensures
            match parse_id_spec(text@) {
                Some(id) => match menu_under(table.entries@, id) {
                    Some(m) => r@ == m@,
                    None => r@.0.len() == 0 && r@.1 == (MenuUrlKind::Page, "broken-"@ + text@, Seq::<Seq<char>>::empty()),
                },
                None => r@.0.len() == 0 && r@.1 == (MenuUrlKind::Page, "broken-"@ + text@, Seq::<Seq<char>>::empty()),
            },
    {
        match parse_id(text) {
            Some(id) => {
                let mut i: usize = 0;
                while i < table.entries.len()
                    invariant
                        table.well_formed(),
                        parse_id_spec(text@) == Some(id),
                        i <= table.entries.len(),
                        forall|k: int| 0 <= k < i ==> (#[trigger] table.entries@[k]).0 != id,
                    decreases table.entries.len() - i,
                {
                    if table.entries[i].0 == id {
                        let m = &table.entries[i].1;
                        proof {
                            let j = choose|j: int| 0 <= j < table.entries.len() && #[trigger] table.entries@[j].0 == id;
                            if j != i {
                                assert(table.entries@[j].0 != table.entries@[i as int].0);
                            }
                        }
                        let r = MenuHistory { history: copy_urls(&m.history), current: m.current.duplicate() };
                        proof {
                            assert(table.entries@[i as int].0 == id);
                            assert(menu_under(table.entries@, id) == Some(table.entries@[i as int].1));
                            assert(r@ == m@);
                        }
                        return r;
                    }
                    i = i + 1;
                }
            },
            None => {},
        }
        let mut name = "broken-".to_owned();
        vstd::string::StringExecFns::append(&mut name, text);
        MenuHistory::new(name.as_str())
    }
}

} // verus!
