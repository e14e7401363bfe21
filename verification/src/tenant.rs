//! Multi-tenant support: one Deck/HTPC, several Steam accounts.
//!
//! Steam profiles on a shared device all run as the same Linux user, so any
//! state persisted per Discord login must be namespaced by the *Steam account*
//! that launched the session, not by `$HOME`. Steam flips `"MostRecent" "1"`
//! in `loginusers.vdf` on every profile login, which makes it the reliable
//! at-launch signal. Reading the file and the environment happens outside the
//! library; this module works on their text.

use crate::text::{
    chars_eq_str, decimal, parse_unsigned_chars, push_char, push_decimal, spec_parse_unsigned,
};
use vstd::prelude::*;
use vstd::string::*;

verus! {

/// The steamid64 of account id 0; account ids are offsets from it.
pub const STEAMID64_BASE: u64 = 76561197960265728;

/// The active Steam tenant on this device.
#[derive(Debug, Clone, Copy, PartialEq, Eq, Structural)]
pub struct Tenant {
    /// 32-bit account id (the `userdata/<id>` directory name).
    pub account_id: u32,
}

// ---------------------------------------------------------------------------
// Splitting text
// ---------------------------------------------------------------------------

/// `s` split at every `sep` (what `str::split` yields for a char): always at
/// least one piece; `k` separators give `k + 1` pieces.
pub open spec fn split_on(s: Seq<char>, sep: char) -> Seq<Seq<char>>
    decreases s.len(),
{
    if s.len() == 0 {
        seq![seq![]]
    } else {
        let r = split_on(s.drop_last(), sep);
        if s.last() == sep {
            r.push(seq![])
        } else {
            r.update(r.len() - 1, r.last().push(s.last()))
        }
    }
}

proof fn lemma_split_nonempty(s: Seq<char>, sep: char)
    ensures
        split_on(s, sep).len() >= 1,
    decreases s.len(),
{
    if s.len() > 0 {
        lemma_split_nonempty(s.drop_last(), sep);
    }
}

/// A piece without one trailing carriage return.
pub open spec fn strip_cr(p: Seq<char>) -> Seq<char> {
    if p.len() > 0 && p.last() == '\r' {
        p.drop_last()
    } else {
        p
    }
}

/// The lines of `s` as `str::lines` yields them: split at `\n`, a `\r` before a
/// `\n` dropped, and no empty line after a final `\n` (an empty text has no
/// lines).
pub open spec fn spec_lines(s: Seq<char>) -> Seq<Seq<char>> {
    let p = split_on(s, '\n');
    let body = p.drop_last().map_values(|q: Seq<char>| strip_cr(q));
    if p.last().len() == 0 {
        body
    } else {
        body.push(p.last())
    }
}

/// The quoted spans of a line: the pieces between the 1st and 2nd `"`, the 3rd
/// and 4th, and so on.
pub open spec fn quoted_fields(line: Seq<char>) -> Seq<Seq<char>> {
    let p = split_on(line, '"');
    Seq::new(p.len() / 2, |k: int| p[2 * k + 1])
}

fn split_chars(s: &Vec<char>, sep: char) -> (r: Vec<Vec<char>>)
    ensures
        r@.map_values(|v: Vec<char>| v@) == split_on(s@, sep),
{
    let mut pieces: Vec<Vec<char>> = Vec::new();
    pieces.push(Vec::new());
    let mut i: usize = 0;
    assert(pieces@.map_values(|v: Vec<char>| v@) =~= split_on(s@.take(0), sep));
    while i < s.len()
        invariant
            i <= s.len(),
            pieces@.len() >= 1,
            pieces@.map_values(|v: Vec<char>| v@) == split_on(s@.take(i as int), sep),
        decreases s.len() - i,
    {
        let ghost before = pieces@.map_values(|v: Vec<char>| v@);
        let ghost t = s@.take(i + 1);
        assert(t.drop_last() =~= s@.take(i as int));
        assert(t.last() == s@[i as int]);
        if s[i] == sep {
            pieces.push(Vec::new());
            assert(pieces@.map_values(|v: Vec<char>| v@) =~= before.push(seq![]));
        } else {
            let last = pieces.len() - 1;
            let mut p = pieces[last].clone();
            assert(p@ =~= before[last as int]);
            p.push(s[i]);
            pieces.set(last, p);
            assert(pieces@.map_values(|v: Vec<char>| v@) =~= before.update(
                last as int,
                before.last().push(s@[i as int]),
            ));
        }
        i = i + 1;
    }
    assert(s@.take(s.len() as int) =~= s@);
    pieces
}

fn lines_of(text: &Vec<char>) -> (r: Vec<Vec<char>>)
    ensures
        r@.map_values(|v: Vec<char>| v@) == spec_lines(text@),
{
    let pieces = split_chars(text, '\n');
    let ghost pv = pieces@.map_values(|v: Vec<char>| v@);
    proof {
        lemma_split_nonempty(text@, '\n');
    }
    let n = pieces.len();
    let mut lines: Vec<Vec<char>> = Vec::new();
    let mut i: usize = 0;
    while i + 1 < n
        invariant
            n == pieces@.len(),
            n >= 1,
            pv == pieces@.map_values(|v: Vec<char>| v@),
            pv == split_on(text@, '\n'),
            i + 1 <= n,
            lines@.len() == i,
            forall|j: int| 0 <= j < i ==> (#[trigger] lines@[j])@ == strip_cr(pv[j]),
        decreases n - i,
    {
        let mut p = pieces[i].clone();
        assert(p@ =~= pv[i as int]);
        let plen = p.len();
        if plen > 0 && p[plen - 1] == '\r' {
            p.pop();
        }
        assert(p@ == strip_cr(pv[i as int]));
        lines.push(p);
        i = i + 1;
    }
    assert(lines@.map_values(|v: Vec<char>| v@) =~= pv.drop_last().map_values(
        |q: Seq<char>| strip_cr(q),
    ));
    let last = pieces[n - 1].clone();
    assert(last@ =~= pv.last());
    if last.len() > 0 {
        let ghost before = lines@.map_values(|v: Vec<char>| v@);
        lines.push(last);
        assert(lines@.map_values(|v: Vec<char>| v@) =~= before.push(pv.last()));
    }
    lines
}

fn quoted_fields_of(line: &Vec<char>) -> (r: Vec<Vec<char>>)
    ensures
        r@.map_values(|v: Vec<char>| v@) == quoted_fields(line@),
{
    let pieces = split_chars(line, '"');
    let ghost pv = pieces@.map_values(|v: Vec<char>| v@);
    let mut fields: Vec<Vec<char>> = Vec::new();
    let mut k: usize = 0;
    while k < pieces.len() / 2
        invariant
            pv == pieces@.map_values(|v: Vec<char>| v@),
            pv == split_on(line@, '"'),
            k <= pieces.len() / 2,
            fields@.len() == k,
            forall|j: int| 0 <= j < k ==> (#[trigger] fields@[j])@ == pv[2 * j + 1],
        decreases pieces.len() / 2 - k,
    {
        let f = pieces[2 * k + 1].clone();
        assert(f@ =~= pv[2 * k + 1]);
        fields.push(f);
        k = k + 1;
    }
    assert(fields@.map_values(|v: Vec<char>| v@) =~= quoted_fields(line@));
    fields
}

// ---------------------------------------------------------------------------
// loginusers.vdf
// ---------------------------------------------------------------------------

/// What one line of `loginusers.vdf` does to the scan: a line whose only
/// quoted span is a steamid64 above the base makes that id the current block;
/// a `"MostRecent" "1"` line answers with the current block, if there is one.
/// Returns the new current block and, when the scan is over, its answer.
pub open spec fn scan_line(current: Option<u64>, line: Seq<char>) -> (Option<u64>, Option<u64>) {
    let f = quoted_fields(line);
    if f.len() == 1 {
        match spec_parse_unsigned(f[0], 10, u64::MAX as nat) {
            Some(n) => if n > STEAMID64_BASE {
                (Some(n as u64), None)
            } else {
                (current, None)
            },
            None => (current, None),
        }
    } else if f.len() == 2 && f[0] == "MostRecent"@ && f[1] == "1"@ && current is Some {
        (current, current)
    } else {
        (current, None)
    }
}

/// The answer of scanning `lines` from a current block.
pub open spec fn scan_lines(lines: Seq<Seq<char>>, current: Option<u64>) -> Option<u64>
    decreases lines.len(),
{
    if lines.len() == 0 {
        None
    } else {
        let (c, answer) = scan_line(current, lines[0]);
        if answer is Some {
            answer
        } else {
            scan_lines(lines.drop_first(), c)
        }
    }
}

/// The steamid64 whose block in a `loginusers.vdf` text has `"MostRecent" "1"`.
pub open spec fn spec_most_recent(text: Seq<char>) -> Option<u64> {
    scan_lines(spec_lines(text), None)
}

/// Scan a `loginusers.vdf` for the steamid64 whose block has
/// `"MostRecent" "1"`.
///
/// The format is sequential (`"7656…" { …fields… }`), so tracking the last
/// seen steamid is sufficient — no full VDF parser needed.
pub fn parse_most_recent(text: &str) -> (r: Option<u64>)
    ensures
        r == spec_most_recent(text@),
{
    let cs = crate::text::chars_of(text);
    let lines = lines_of(&cs);
    let ghost lv = lines@.map_values(|v: Vec<char>| v@);
    let mut current: Option<u64> = None;
    let mut i: usize = 0;
    assert(lv.skip(0) =~= lv);
    while i < lines.len()
        invariant
            lv == lines@.map_values(|v: Vec<char>| v@),
            lv == spec_lines(text@),
            i <= lines.len(),
            scan_lines(lv, None) == scan_lines(lv.skip(i as int), current),
        decreases lines.len() - i,
    {
        let fields = quoted_fields_of(&lines[i]);
        let ghost fv = fields@.map_values(|v: Vec<char>| v@);
        assert(lv.skip(i as int)[0] == lines@[i as int]@);
        assert(lv.skip(i as int).drop_first() =~= lv.skip(i + 1));
        if fields.len() == 1 {
            assert(fv[0] == fields@[0]@);
            match parse_unsigned_chars(&fields[0], 10, u64::MAX) {
                Some(n) => {
                    if n > STEAMID64_BASE {
                        current = Some(n);
                    }
                },
                None => {},
            }
        } else if fields.len() == 2 {
            assert(fv[0] == fields@[0]@ && fv[1] == fields@[1]@);
            if chars_eq_str(&fields[0], "MostRecent") && chars_eq_str(&fields[1], "1") {
                if current.is_some() {
                    return current;
                }
            }
        }
        i = i + 1;
    }
    None
}

/// The account id a steamid64 stands for (its low 32 bits above the base).
pub open spec fn account_of(steamid64: u64) -> u32 {
    (steamid64 - STEAMID64_BASE) as u32
}

/// The active tenant a `loginusers.vdf` text names, or `None` off-Steam /
/// before the first login.
pub fn tenant_from_loginusers(text: &str) -> (t: Option<Tenant>)
    ensures
        t == match spec_most_recent(text@) {
            Some(id) => Some(Tenant { account_id: account_of(id) }),
            None => None,
        },
{
    match parse_most_recent(text) {
        Some(id) => {
            proof {
                lemma_most_recent_above_base(text@);
            }
            Some(Tenant { account_id: (id - STEAMID64_BASE) as u32 })
        },
        None => None,
    }
}

proof fn lemma_scan_above_base(lines: Seq<Seq<char>>, current: Option<u64>)
    requires
        current matches Some(c) ==> c > STEAMID64_BASE,
    ensures
        scan_lines(lines, current) matches Some(c) ==> c > STEAMID64_BASE,
    decreases lines.len(),
{
    if lines.len() > 0 {
        let (c, answer) = scan_line(current, lines[0]);
        lemma_scan_above_base(lines.drop_first(), c);
    }
}

/// Every steamid64 the scan answers lies above the base, so the account id
/// is its offset.
pub proof fn lemma_most_recent_above_base(text: Seq<char>)
    ensures
        spec_most_recent(text) matches Some(id) ==> id > STEAMID64_BASE,
{
    lemma_scan_above_base(spec_lines(text), None);
}

// ---------------------------------------------------------------------------
// State directory
// ---------------------------------------------------------------------------

/// `base` joined with a relative path component, as `Path::join` does on Unix:
/// a separator is added unless `base` is empty or already ends in one.
pub open spec fn path_join(base: Seq<char>, comp: Seq<char>) -> Seq<char> {
    if base.len() == 0 || base.last() == '/' {
        base + comp
    } else {
        base + "/"@ + comp
    }
}

/// Append a relative path component, as `Path::push` does on Unix.
pub(crate) fn push_component(path: &mut String, comp: &str)
    ensures
        final(path)@ == path_join(old(path)@, comp@),
{
    let cs = crate::text::chars_of(path.as_str());
    if cs.len() > 0 && cs[cs.len() - 1] != '/' {
        path.append("/");
    }
    path.append(comp);
}

/// Where per-tenant state lives: `$XDG_STATE_HOME/couchcord` when that is set
/// and not empty, else `$HOME/.local/state/couchcord` (`.` without a home).
pub open spec fn spec_state_root(xdg_state_home: Option<Seq<char>>, home: Option<Seq<char>>) -> Seq<char> {
    match xdg_state_home {
        Some(x) if x.len() > 0 => path_join(x, "couchcord"@),
        _ => path_join(
            match home {
                Some(h) => h,
                None => "."@,
            },
            ".local/state/couchcord"@,
        ),
    }
}

/// The state root, from the values of `XDG_STATE_HOME` and `HOME`.
pub fn state_root(xdg_state_home: Option<&str>, home: Option<&str>) -> (root: String)
    ensures
        root@ == spec_state_root(
            match xdg_state_home {
                Some(x) => Some(x@),
                None => None,
            },
            match home {
                Some(h) => Some(h@),
                None => None,
            },
        ),
{
    if let Some(x) = xdg_state_home {
        if x.unicode_len() > 0 {
            let mut root = x.to_owned();
            push_component(&mut root, "couchcord");
            return root;
        }
    }
    let mut root = match home {
        Some(h) => h.to_owned(),
        None => String::from_str("."),
    };
    push_component(&mut root, ".local/state/couchcord");
    root
}

/// Where Steam's login list is read from: `$COUCHCORD_LOGINUSERS` when set,
/// else under `$HOME`; `None` without either.
pub open spec fn spec_loginusers_path(over: Option<Seq<char>>, home: Option<Seq<char>>) -> Option<
    Seq<char>,
> {
    match over {
        Some(p) => Some(p),
        None => match home {
            Some(h) => Some(path_join(h, ".steam/steam/config/loginusers.vdf"@)),
            None => None,
        },
    }
}

/// The `loginusers.vdf` path, from the values of `COUCHCORD_LOGINUSERS` and
/// `HOME`.
pub fn loginusers_path(over: Option<&str>, home: Option<&str>) -> (p: Option<String>)
    ensures
        match p {
            Some(s) => spec_loginusers_path(
                match over {
                    Some(o) => Some(o@),
                    None => None,
                },
                match home {
                    Some(h) => Some(h@),
                    None => None,
                },
            ) == Some(s@),
            None => over is None && home is None,
        },
{
    match over {
        Some(o) => Some(o.to_owned()),
        None => match home {
            Some(h) => {
                let mut p = h.to_owned();
                push_component(&mut p, ".steam/steam/config/loginusers.vdf");
                Some(p)
            },
            None => None,
        },
    }
}

impl Tenant {
    /// The tenant's state directory under the state root `root` (by default
    /// `$XDG_STATE_HOME/couchcord`): `<root>/tenants/<account_id>`.
    pub fn state_dir(&self, root: &str) -> (dir: String)
        ensures
            dir@ == path_join(path_join(root@, "tenants"@), decimal(self.account_id as nat)),
    {
        let mut dir = root.to_owned();
        push_component(&mut dir, "tenants");
        let id = crate::text::to_decimal(self.account_id as u64);
        push_component(&mut dir, id.as_str());
        dir
    }
}

} // verus!
