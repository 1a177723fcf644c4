//! Small window actions: the undo and session-row parameters, tab
//! switching, copying credentials, smart folders, cluster broadcast,
//! secret variables, sync errors and recording indicators.
use vstd::prelude::*;
use crate::ids::{lemma_uuid_text_lacks, parse_uuid, uuid_hyphenated, uuid_parse, uuid_text};
use crate::text::{
    chars_of, concat_chars, contains_exec, contains_seq, lemma_split_append, lemma_split_no_sep,
    opt_view, split_exec, split_spec, starts_with, str_eq, string_of, strip_prefix_exec, trim_exec,
    trim_spec, views,
};

verus! {

// ---------------------------------------------------------------------------
// Undo of a deletion
// ---------------------------------------------------------------------------

/// What a deletion removed.
#[derive(Clone, Copy, Debug, PartialEq, Eq, Structural)]
pub enum UndoKind {
    Connection,
    Group,
}

/// The word of each kind in the undo parameter.
pub open spec fn undo_word(k: UndoKind) -> Seq<char> {
    match k {
        UndoKind::Connection => "connection"@,
        UndoKind::Group => "group"@,
    }
}

/// The undo parameter `type:uuid`: exactly two pieces around `:`, the type
/// `connection` or `group`, and an identifier the `uuid` crate accepts.
pub open spec fn undo_target_spec(param: Seq<char>) -> Option<(UndoKind, u128)> {
    let parts = split_spec(param, ':');
    if parts.len() != 2 {
        None
    } else {
        match uuid_parse(parts[1]) {
            None => None,
            Some(id) => if parts[0] == "connection"@ {
                Some((UndoKind::Connection, id))
            } else if parts[0] == "group"@ {
                Some((UndoKind::Group, id))
            } else {
                None
            },
        }
    }
}

/// The undo parameter for a deleted item.
pub fn undo_param(kind: UndoKind, id: u128) -> (r: String)
    ensures
        r@ == undo_word(kind) + ":"@ + uuid_hyphenated(id),
{
    let word = match kind {
        UndoKind::Connection => chars_of("connection"),
        UndoKind::Group => chars_of("group"),
    };
    let head = concat_chars(&word, &chars_of(":"));
    string_of(&concat_chars(&head, &chars_of(uuid_text(id).as_str())))
}

/// Reads the undo parameter. A parameter written by `undo_param` reads back
/// as the kind and identifier it was written from.
pub fn parse_undo_target(param: &str) -> (r: Option<(UndoKind, u128)>)
    ensures
        r == undo_target_spec(param@),
        forall|k: UndoKind, id: u128| param@ == undo_word(k) + ":"@ + uuid_hyphenated(id) ==> r == Some((k, id)),
{
    proof {
        reveal_strlit("connection");
        reveal_strlit("group");
    }
    let parts = split_exec(&chars_of(param), ':');
    assert(views(parts@).len() == parts.len());
    if parts.len() != 2 {
        proof {
            assert forall|k: UndoKind, id: u128| param@ == undo_word(k) + ":"@ + uuid_hyphenated(id) implies false by {
                lemma_undo_split(k, id);
            }
        }
        return None;
    }
    let id_text = string_of(&parts[1]);
    let parsed = parse_uuid(id_text.as_str());
    proof {
        assert forall|k: UndoKind, id: u128| param@ == undo_word(k) + ":"@ + uuid_hyphenated(id) implies
            parsed == Some(id) && views(parts@)[0] == undo_word(k) by {
            lemma_undo_split(k, id);
            assert(views(parts@)[1] == parts@[1]@);
            assert(id_text@ == uuid_hyphenated(id));
        }
        assert(views(parts@)[0] == parts@[0]@);
        assert("connection"@ != "group"@) by {
            assert("connection"@.len() != "group"@.len());
        }
    }
    match parsed {
        None => None,
        Some(id) => {
            if crate::text::seq_eq(&parts[0], &chars_of("connection")) {
                Some((UndoKind::Connection, id))
            } else if crate::text::seq_eq(&parts[0], &chars_of("group")) {
                proof {
                    reveal_strlit("connection");
                    reveal_strlit("group");
                }
                Some((UndoKind::Group, id))
            } else {
                proof {
                    reveal_strlit("connection");
                    reveal_strlit("group");
                }
                None
            }
        },
    }
}

/// The parameter written for `k` and `id` splits into the word and the
/// identifier's text.
proof fn lemma_undo_split(k: UndoKind, id: u128)
    ensures
        split_spec(undo_word(k) + ":"@ + uuid_hyphenated(id), ':') == seq![undo_word(k), uuid_hyphenated(id)],
{
    reveal_strlit("connection");
    reveal_strlit("group");
    reveal_strlit(":");
    let w = undo_word(k);
    assert(!w.contains(':'));
    lemma_uuid_text_lacks(id, ':');
    lemma_split_no_sep(w, ':');
    lemma_split_append(w, ':', uuid_hyphenated(id));
    assert(w + ":"@ + uuid_hyphenated(id) =~= w.push(':') + uuid_hyphenated(id));
}

// ---------------------------------------------------------------------------
// Session rows
// ---------------------------------------------------------------------------

/// The widget name of a session's row: `session-<uuid>`.
pub fn session_row_name(id: u128) -> (r: String)
    ensures
        r@ == "session-"@ + uuid_hyphenated(id),
{
    string_of(&concat_chars(&chars_of("session-"), &chars_of(uuid_text(id).as_str())))
}

/// The session a row stands for: the name without `session-`, read as an
/// identifier. A name written by `session_row_name` reads back as its
/// identifier.
pub fn session_from_row_name(name: &str) -> (r: Option<u128>)
    ensures
        r == (if starts_with(name@, "session-"@) {
            uuid_parse(name@.subrange("session-"@.len() as int, name@.len() as int))
        } else {
            None
        }),
        forall|id: u128| name@ == "session-"@ + uuid_hyphenated(id) ==> r == Some(id),
{
    let prefix = chars_of("session-");
    match strip_prefix_exec(&chars_of(name), &prefix) {
        Some(rest) => {
            let t = string_of(&rest);
            let r = parse_uuid(t.as_str());
            proof {
                assert forall|id: u128| name@ == "session-"@ + uuid_hyphenated(id) implies r == Some(id) by {
                    assert(rest@ =~= uuid_hyphenated(id));
                }
            }
            r
        },
        None => {
            proof {
                assert forall|id: u128| name@ == "session-"@ + uuid_hyphenated(id) implies false by {
                    assert(name@.subrange(0, prefix@.len() as int) =~= prefix@);
                }
            }
            None
        },
    }
}

// ---------------------------------------------------------------------------
// Tab switching
// ---------------------------------------------------------------------------

/// The tab after `current`, wrapping to the first.
pub open spec fn next_tab_spec(current: u32, count: u32) -> u32 {
    ((current + 1) % (count as int)) as u32
}

/// The tab before `current`, wrapping to the last.
pub open spec fn prev_tab_spec(current: u32, count: u32) -> u32 {
    if current == 0 {
        (count - 1) as u32
    } else {
        (current - 1) as u32
    }
}

/// The position of the next tab.
pub fn next_tab(current: u32, count: u32) -> (r: u32)
    requires
        current < count,
    ensures
        r == next_tab_spec(current, count),
        r < count,
{
    if current + 1 == count {
        assert((current + 1) % (count as int) == 0) by (nonlinear_arith)
            requires
                current + 1 == count,
                count > 0,
        ;
        0
    } else {
        assert((current + 1) % (count as int) == current + 1) by (nonlinear_arith)
            requires
                current + 1 < count,
        ;
        current + 1
    }
}

/// The position of the previous tab.
pub fn prev_tab(current: u32, count: u32) -> (r: u32)
    requires
        current < count,
    ensures
        r == prev_tab_spec(current, count),
        r < count,
{
    if current == 0 {
        count - 1
    } else {
        current - 1
    }
}

/// Going to the next tab and back (or back and then forward) returns to
/// the same tab.
pub proof fn tab_switch_round_trip(current: u32, count: u32)
    requires
        current < count,
    ensures
        prev_tab_spec(next_tab_spec(current, count), count) == current,
        next_tab_spec(prev_tab_spec(current, count), count) == current,
{
    if current + 1 == count {
        assert((current + 1) % (count as int) == 0) by (nonlinear_arith)
            requires
                current + 1 == count,
                count > 0,
        ;
    } else {
        assert((current + 1) % (count as int) == current + 1) by (nonlinear_arith)
            requires
                current + 1 < count,
        ;
    }
    if current == 0 {
        assert(((count - 1) + 1) % (count as int) == 0) by (nonlinear_arith)
            requires
                count > 0,
        ;
    } else {
        assert(((current - 1) + 1) % (count as int) == current) by (nonlinear_arith)
            requires
                0 < current < count,
        ;
    }
}

// ---------------------------------------------------------------------------
// Copying credentials
// ---------------------------------------------------------------------------

/// The user name copied: the cached one when not empty, else the one stored
/// on the connection; `None` (a warning) when that is empty too.
pub open spec fn username_to_copy_spec(cached: Option<Seq<char>>, stored: Option<Seq<char>>) -> Option<Seq<char>> {
    let u = match cached {
        Some(c) => if c.len() > 0 {
            c
        } else {
            match stored {
                Some(s) => s,
                None => Seq::empty(),
            }
        },
        None => match stored {
            Some(s) => s,
            None => Seq::empty(),
        },
    };
    if u.len() == 0 {
        None
    } else {
        Some(u)
    }
}

/// The user name put on the clipboard.
pub fn username_to_copy(cached: Option<&str>, stored: Option<&str>) -> (r: Option<String>)
    ensures
        match r {
            Some(s) => username_to_copy_spec(opt_view(cached), opt_view(stored)) == Some(s@),
            None => username_to_copy_spec(opt_view(cached), opt_view(stored)) is None,
        },
{
    let from_stored = match stored {
        Some(s) => chars_of(s),
        None => Vec::new(),
    };
    let u = match cached {
        Some(c) => {
            let cv = chars_of(c);
            if cv.len() > 0 {
                cv
            } else {
                from_stored
            }
        },
        None => from_stored,
    };
    if u.len() == 0 {
        None
    } else {
        Some(string_of(&u))
    }
}

/// What copying the password does.
#[derive(Clone, Debug)]
pub enum PasswordCopy {
    /// Nothing cached: connect first.
    NotCached,
    /// The cached password is empty.
    Empty,
    /// Put this on the clipboard (cleared again later).
    Copy(String),
}

/// Decides what copying the cached password does.
pub fn password_copy(cached: Option<&str>) -> (r: PasswordCopy)
    ensures
        match r {
            PasswordCopy::NotCached => cached is None,
            PasswordCopy::Empty => cached is Some && cached.unwrap()@.len() == 0,
            PasswordCopy::Copy(p) => cached is Some && cached.unwrap()@.len() > 0 && p@ == cached.unwrap()@,
        },
{
    match cached {
        None => PasswordCopy::NotCached,
        Some(p) => {
            let v = chars_of(p);
            if v.len() == 0 {
                PasswordCopy::Empty
            } else {
                PasswordCopy::Copy(string_of(&v))
            }
        },
    }
}

/// The clipboard is cleared only if it still holds the copied password.
pub fn clipboard_clear_due(current: Option<&str>, copied: &str) -> (r: bool)
    ensures
        r == (opt_view(current) == Some(copied@)),
{
    match current {
        Some(c) => str_eq(c, copied),
        None => false,
    }
}

// ---------------------------------------------------------------------------
// Smart folders
// ---------------------------------------------------------------------------

/// An item with an identifier.
#[derive(Clone, Debug)]
pub struct Keyed<T> {
    pub id: u128,
    pub item: T,
}

/// The index of the first item with identifier `id`, if any.
pub open spec fn first_with_id<T>(v: Seq<Keyed<T>>, id: u128) -> Option<int> {
    if exists|i: int| 0 <= i < v.len() && v[i].id == id && forall|j: int| 0 <= j < i ==> v[j].id != id {
        Some(choose|i: int| 0 <= i < v.len() && v[i].id == id && forall|j: int| 0 <= j < i ==> v[j].id != id)
    } else {
        None
    }
}

/// Replaces the first item with the updated item's identifier; nothing
/// changes when no item has it.
pub fn replace_by_id<T>(v: &mut Vec<Keyed<T>>, updated: Keyed<T>)
    ensures
        match first_with_id(old(v)@, updated.id) {
            Some(i) => final(v)@ == old(v)@.update(i, updated),
            None => final(v)@ == old(v)@,
        },
{
    let mut i: usize = 0;
    while i < v.len()
        invariant
            i <= v.len(),
            v@ == old(v)@,
            forall|j: int| 0 <= j < i ==> v@[j].id != updated.id,
        decreases v.len() - i,
    {
        if v[i].id == updated.id {
            proof {
                let c = choose|k: int| 0 <= k < v@.len() && v@[k].id == updated.id
                    && forall|j: int| 0 <= j < k ==> v@[j].id != updated.id;
                assert(c == i) by {
                    if c < i {
                    } else if c > i {
                        assert(v@[i as int].id == updated.id);
                    }
                }
            }
            v.set(i, updated);
            return;
        }
        i = i + 1;
    }
}

/// The items whose identifier is not `id`, in order.
pub open spec fn without_id<T>(v: Seq<Keyed<T>>, id: u128) -> Seq<Keyed<T>>
    decreases v.len(),
{
    if v.len() == 0 {
        Seq::empty()
    } else {
        let rest = without_id(v.drop_last(), id);
        if v.last().id == id {
            rest
        } else {
            rest.push(v.last())
        }
    }
}

/// Removes every item with identifier `id`, keeping the order of the rest.
pub fn remove_by_id<T>(v: &mut Vec<Keyed<T>>, id: u128)
    ensures
        final(v)@ == without_id(old(v)@, id),
{
    let ghost start = v@;
    let ghost mut k: int = 0;
    let mut i: usize = 0;
    while i < v.len()
        invariant
            0 <= k <= start.len(),
            i <= v.len(),
            v@.subrange(0, i as int) == without_id(start.take(k), id),
            v@.subrange(i as int, v.len() as int) == start.subrange(k, start.len() as int),
        decreases v.len() - i,
    {
        let ghost before = v@;
        assert(before.subrange(i as int, before.len() as int).len() == start.subrange(k, start.len() as int).len());
        assert(k < start.len());
        assert(before[i as int] == start[k]) by {
            assert(before.subrange(i as int, before.len() as int)[0] == before[i as int]);
            assert(start.subrange(k, start.len() as int)[0] == start[k]);
        }
        assert(start.take(k + 1).drop_last() =~= start.take(k));
        assert(start.take(k + 1).last() == start[k]);
        if v[i].id == id {
            let _removed = v.remove(i);
            assert(v@.subrange(0, i as int) =~= before.subrange(0, i as int));
            assert(v@.subrange(i as int, v.len() as int) =~= before.subrange(i + 1, before.len() as int));
            assert(start.subrange(k + 1, start.len() as int) =~= start.subrange(k, start.len() as int).drop_first());
            proof {
                k = k + 1;
            }
        } else {
            assert(v@.subrange(0, i + 1) =~= before.subrange(0, i as int).push(before[i as int]));
            assert(v@.subrange(i + 1, v.len() as int) =~= before.subrange(i as int, before.len() as int).drop_first());
            assert(start.subrange(k + 1, start.len() as int) =~= start.subrange(k, start.len() as int).drop_first());
            i = i + 1;
            proof {
                k = k + 1;
            }
        }
    }
    assert(start.subrange(k, start.len() as int).len() == 0);
    assert(k == start.len());
    assert(start.take(k) =~= start);
    assert(v@ =~= v@.subrange(0, i as int));
}

// ---------------------------------------------------------------------------
// Cluster broadcast
// ---------------------------------------------------------------------------

/// The sessions of `sessions` other than `source`, in order.
pub open spec fn others_spec(sessions: Seq<u128>, source: u128) -> Seq<u128>
    decreases sessions.len(),
{
    if sessions.len() == 0 {
        Seq::empty()
    } else {
        let rest = others_spec(sessions.drop_last(), source);
        if sessions.last() == source {
            rest
        } else {
            rest.push(sessions.last())
        }
    }
}

/// The sessions that receive what is typed into `source` while the
/// cluster broadcasts: every other session of the cluster.
pub fn broadcast_targets(sessions: &[u128], source: u128) -> (r: Vec<u128>)
    ensures
        r@ == others_spec(sessions@, source),
{
    let mut out: Vec<u128> = Vec::new();
    let mut i: usize = 0;
    while i < sessions.len()
        invariant
            i <= sessions.len(),
            out@ == others_spec(sessions@.take(i as int), source),
        decreases sessions.len() - i,
    {
        assert(sessions@.take(i + 1).drop_last() =~= sessions@.take(i as int));
        if sessions[i] != source {
            out.push(sessions[i]);
        }
        i = i + 1;
    }
    assert(sessions@.take(sessions.len() as int) =~= sessions@);
    out
}

/// The connections offered as jump host while a connection is edited:
/// every other connection, in order.
pub fn jump_host_candidates(connection_ids: &[u128], editing: u128) -> (r: Vec<u128>)
    ensures
        r@ == others_spec(connection_ids@, editing),
{
    broadcast_targets(connection_ids, editing)
}

/// Text typed into a session never comes back to it, and reaches every
/// other session of the cluster.
pub proof fn broadcast_reaches_others(sessions: Seq<u128>, source: u128, x: u128)
    ensures
        !others_spec(sessions, source).contains(source),
        x != source ==> (others_spec(sessions, source).contains(x) <==> sessions.contains(x)),
    decreases sessions.len(),
{
    if sessions.len() > 0 {
        let rest = sessions.drop_last();
        broadcast_reaches_others(rest, source, x);
        let o = others_spec(rest, source);
        if sessions.last() != source {
            assert(o.push(sessions.last()).contains(source) ==> o.contains(source)) by {
                if o.push(sessions.last()).contains(source) {
                    let j = choose|j: int| 0 <= j < o.push(sessions.last()).len() && o.push(sessions.last())[j] == source;
                    if j < o.len() {
                        assert(o[j] == source);
                    }
                }
            }
        }
        if x != source {
            assert(sessions.contains(x) <==> (rest.contains(x) || sessions.last() == x)) by {
                if sessions.contains(x) {
                    let j = choose|j: int| 0 <= j < sessions.len() && sessions[j] == x;
                    if j < rest.len() {
                        assert(rest[j] == x);
                    }
                }
                if rest.contains(x) {
                    let j = choose|j: int| 0 <= j < rest.len() && rest[j] == x;
                    assert(sessions[j] == x);
                }
                if sessions.last() == x {
                    assert(sessions[sessions.len() - 1] == x);
                }
            }
            if sessions.last() != source {
                let p = o.push(sessions.last());
                assert(p.contains(x) <==> (o.contains(x) || sessions.last() == x)) by {
                    if p.contains(x) {
                        let j = choose|j: int| 0 <= j < p.len() && p[j] == x;
                        if j < o.len() {
                            assert(o[j] == x);
                        }
                    }
                    if o.contains(x) {
                        let j = choose|j: int| 0 <= j < o.len() && o[j] == x;
                        assert(p[j] == x);
                    }
                    if sessions.last() == x {
                        assert(p[p.len() - 1] == x);
                    }
                }
            }
        }
    }
}

/// The sessions of a cluster's connections that started, in order; the
/// broadcast is wired only when some started and the cluster broadcasts.
pub fn cluster_sessions(started: &[Option<u128>], broadcast_enabled: bool) -> (r: (Vec<u128>, bool))
    ensures
        r.0@ == started@.filter(|s: Option<u128>| s is Some).map_values(|s: Option<u128>| s.unwrap()),
        r.1 == (broadcast_enabled && r.0.len() > 0),
{
    let mut out: Vec<u128> = Vec::new();
    let mut i: usize = 0;
    while i < started.len()
        invariant
            i <= started.len(),
            out@ == started@.take(i as int).filter(|s: Option<u128>| s is Some).map_values(|s: Option<u128>| s.unwrap()),
        decreases started.len() - i,
    {
        let ghost t = started@.take(i + 1);
        assert(t.drop_last() =~= started@.take(i as int));
        reveal(Seq::filter);
        match started[i] {
            Some(id) => {
                out.push(id);
                assert(t.filter(|s: Option<u128>| s is Some) =~= started@.take(i as int).filter(|s: Option<u128>| s is Some).push(started@[i as int]));
                assert(out@ =~= t.filter(|s: Option<u128>| s is Some).map_values(|s: Option<u128>| s.unwrap()));
            },
            None => {
                assert(t.filter(|s: Option<u128>| s is Some) =~= started@.take(i as int).filter(|s: Option<u128>| s is Some));
            },
        }
        i = i + 1;
    }
    assert(started@.take(started.len() as int) =~= started@);
    let wired = broadcast_enabled && out.len() > 0;
    (out, wired)
}

// ---------------------------------------------------------------------------
// Secret variables
// ---------------------------------------------------------------------------

/// What the variable logic reads of a global variable.
#[derive(Clone, Debug)]
pub struct VariableRecord {
    pub name: String,
    pub value: String,
    pub is_secret: bool,
    /// A KeePass entry path that holds the value instead of the vault.
    pub kdbx_entry_path: Option<String>,
}

/// A secret variable's value goes to the vault when it is not empty and no
/// KeePass entry path (other than a blank one) holds it.
pub open spec fn goes_to_vault(v: VariableRecord) -> bool {
    v.is_secret && v.value@.len() > 0 && !(match v.kdbx_entry_path {
        Some(p) => trim_spec(p@).len() > 0,
        None => false,
    })
}

/// The indices of the variables whose values go to the vault, in order.
pub fn variables_for_vault(vars: &[VariableRecord]) -> (r: Vec<usize>)
    ensures
        forall|k: int| 0 <= k < r.len() ==> (#[trigger] r@[k] as int) < vars.len() && goes_to_vault(vars@[r@[k] as int]),
        forall|i: int| 0 <= i < vars.len() && goes_to_vault(#[trigger] vars@[i]) ==> r@.contains(i as usize),
        forall|a: int, b: int| 0 <= a < b < r.len() ==> r@[a] < r@[b],
{
    let mut out: Vec<usize> = Vec::new();
    let mut i: usize = 0;
    while i < vars.len()
        invariant
            i <= vars.len(),
            forall|k: int| 0 <= k < out.len() ==> (#[trigger] out@[k] as int) < i && goes_to_vault(vars@[out@[k] as int]),
            forall|j: int| 0 <= j < i && goes_to_vault(#[trigger] vars@[j]) ==> out@.contains(j as usize),
            forall|a: int, b: int| 0 <= a < b < out.len() ==> out@[a] < out@[b],
        decreases vars.len() - i,
    {
        let v = &vars[i];
        let pinned = match &v.kdbx_entry_path {
            Some(p) => trim_exec(&chars_of(p.as_str())).len() > 0,
            None => false,
        };
        let ghost before = out@;
        if v.is_secret && chars_of(v.value.as_str()).len() > 0 && !pinned {
            out.push(i);
            assert forall|j: int| 0 <= j < i + 1 && goes_to_vault(#[trigger] vars@[j]) implies out@.contains(j as usize) by {
                if j < i {
                    let k = choose|k: int| 0 <= k < before.len() && before[k] == j as usize;
                    assert(out@[k] == j as usize);
                } else {
                    assert(out@[out.len() - 1] == i);
                }
            }
        }
        i = i + 1;
    }
    out
}

/// A copy of a string.
fn copy_string(s: &String) -> (r: String)
    ensures
        r@ == s@,
{
    string_of(&chars_of(s.as_str()))
}

/// The variables as they are saved to the configuration: secret values
/// emptied, everything else as it was.
pub fn variables_without_secrets(vars: &[VariableRecord]) -> (r: Vec<VariableRecord>)
    ensures
        r.len() == vars.len(),
        forall|i: int| 0 <= i < vars.len() ==> {
            &&& (#[trigger] r@[i]).name@ == vars@[i].name@
            &&& r@[i].is_secret == vars@[i].is_secret
            &&& crate::text::opt_string_view(r@[i].kdbx_entry_path) == crate::text::opt_string_view(vars@[i].kdbx_entry_path)
            &&& r@[i].value@ == (if vars@[i].is_secret { Seq::<char>::empty() } else { vars@[i].value@ })
        },
{
    let mut out: Vec<VariableRecord> = Vec::new();
    let mut i: usize = 0;
    while i < vars.len()
        invariant
            i <= vars.len(),
            out.len() == i,
            forall|j: int| 0 <= j < i ==> {
                &&& (#[trigger] out@[j]).name@ == vars@[j].name@
                &&& out@[j].is_secret == vars@[j].is_secret
                &&& crate::text::opt_string_view(out@[j].kdbx_entry_path) == crate::text::opt_string_view(vars@[j].kdbx_entry_path)
                &&& out@[j].value@ == (if vars@[j].is_secret { Seq::<char>::empty() } else { vars@[j].value@ })
            },
        decreases vars.len() - i,
    {
        let v = &vars[i];
        let value = if v.is_secret {
            String::new()
        } else {
            copy_string(&v.value)
        };
        let path = match &v.kdbx_entry_path {
            Some(p) => Some(copy_string(p)),
            None => None,
        };
        out.push(VariableRecord { name: copy_string(&v.name), value, is_secret: v.is_secret, kdbx_entry_path: path });
        i = i + 1;
    }
    out
}

/// A text refers to a variable when it holds `${`.
pub open spec fn refers_to_variable(s: Seq<char>) -> bool {
    contains_seq(s, "${"@)
}

/// Whether a text refers to a variable and so has to be substituted.
pub fn has_variable_reference(input: &str) -> (r: bool)
    ensures
        r == refers_to_variable(input@),
{
    contains_exec(&chars_of(input), &chars_of("${"))
}

/// A text after variable substitution: a text without a reference stays as
/// it is; otherwise it becomes what the substitution produced, or stays as
/// it is when the substitution failed (`None`).
pub fn substitute_variables(input: &str, substituted: Option<&str>) -> (r: String)
    ensures
        r@ == (if refers_to_variable(input@) {
            match opt_view(substituted) {
                Some(t) => t,
                None => input@,
            }
        } else {
            input@
        }),
{
    if !has_variable_reference(input) {
        return string_of(&chars_of(input));
    }
    match substituted {
        Some(t) => string_of(&chars_of(t)),
        None => string_of(&chars_of(input)),
    }
}

/// Where a variable's value is kept, as the bastion password lookup reads it.
#[derive(Clone, Debug)]
pub struct VariableEntry {
    pub name: String,
    /// A custom KeePass entry path.
    pub kdbx_entry_path: Option<String>,
    /// A custom vault entry name.
    pub vault_entry_name: Option<String>,
}

/// The first variable named `name`, if any.
pub open spec fn first_named(vars: Seq<VariableEntry>, name: Seq<char>) -> Option<VariableEntry>
    decreases vars.len(),
{
    if vars.len() == 0 {
        None
    } else if vars[0].name@ == name {
        Some(vars[0])
    } else {
        first_named(vars.drop_first(), name)
    }
}

/// The custom KeePass path and vault entry name of the first variable named
/// `name` (each `None` when that variable has none, or no variable has the
/// name).
pub fn variable_entry_paths(vars: &[VariableEntry], name: &str) -> (r: (Option<String>, Option<String>))
    ensures
        crate::text::opt_string_view(r.0) == (match first_named(vars@, name@) {
            Some(v) => crate::text::opt_string_view(v.kdbx_entry_path),
            None => None,
        }),
        crate::text::opt_string_view(r.1) == (match first_named(vars@, name@) {
            Some(v) => crate::text::opt_string_view(v.vault_entry_name),
            None => None,
        }),
{
    let mut i: usize = 0;
    assert(vars@.subrange(0, vars.len() as int) =~= vars@);
    while i < vars.len()
        invariant
            i <= vars.len(),
            first_named(vars@, name@) == first_named(vars@.subrange(i as int, vars.len() as int), name@),
        decreases vars.len() - i,
    {
        let ghost rest = vars@.subrange(i as int, vars.len() as int);
        assert(rest.drop_first() =~= vars@.subrange(i + 1, vars.len() as int));
        if str_eq(vars[i].name.as_str(), name) {
            let kdbx = match &vars[i].kdbx_entry_path {
                Some(p) => Some(copy_string(p)),
                None => None,
            };
            let vault = match &vars[i].vault_entry_name {
                Some(p) => Some(copy_string(p)),
                None => None,
            };
            return (kdbx, vault);
        }
        i = i + 1;
    }
    (None, None)
}

// ---------------------------------------------------------------------------
// Sync errors, dynamic folders, recording
// ---------------------------------------------------------------------------

/// Which message a failed sync shows.
#[derive(Clone, Copy, Debug, PartialEq, Eq, Structural)]
pub enum SyncErrorHint {
    /// Under Flatpak the sync directory is not configured: grant access.
    NotConfiguredInFlatpak,
    /// Under Flatpak the sync directory is not writable: grant access.
    NotWritableInFlatpak,
    /// Show the error itself.
    Plain,
}

/// The hint for a sync error text.
pub open spec fn sync_error_hint_spec(error: Seq<char>, flatpak: bool) -> SyncErrorHint {
    if contains_seq(error, "not configured"@) && flatpak {
        SyncErrorHint::NotConfiguredInFlatpak
    } else if contains_seq(error, "not writable"@) && flatpak {
        SyncErrorHint::NotWritableInFlatpak
    } else {
        SyncErrorHint::Plain
    }
}

/// Which message a failed sync shows.
pub fn sync_error_hint(error: &str, flatpak: bool) -> (r: SyncErrorHint)
    ensures
        r == sync_error_hint_spec(error@, flatpak),
{
    let e = chars_of(error);
    if contains_exec(&e, &chars_of("not configured")) && flatpak {
        SyncErrorHint::NotConfiguredInFlatpak
    } else if contains_exec(&e, &chars_of("not writable")) && flatpak {
        SyncErrorHint::NotWritableInFlatpak
    } else {
        SyncErrorHint::Plain
    }
}

/// A connection of a dynamic folder.
#[derive(Clone, Copy, Debug)]
pub struct FolderEntry {
    pub connection_id: u128,
    pub is_dynamic: bool,
}

/// The connections a dynamic-folder refresh replaces: those of the group
/// that the folder's script created, in order.
pub fn stale_dynamic_connections(entries: &[FolderEntry]) -> (r: Vec<u128>)
    ensures
        r@ == entries@.filter(|e: FolderEntry| e.is_dynamic).map_values(|e: FolderEntry| e.connection_id),
{
    let mut out: Vec<u128> = Vec::new();
    let mut i: usize = 0;
    while i < entries.len()
        invariant
            i <= entries.len(),
            out@ == entries@.take(i as int).filter(|e: FolderEntry| e.is_dynamic).map_values(|e: FolderEntry| e.connection_id),
        decreases entries.len() - i,
    {
        let ghost t = entries@.take(i + 1);
        assert(t.drop_last() =~= entries@.take(i as int));
        reveal(Seq::filter);
        if entries[i].is_dynamic {
            out.push(entries[i].connection_id);
            assert(t.filter(|e: FolderEntry| e.is_dynamic) =~= entries@.take(i as int).filter(|e: FolderEntry| e.is_dynamic).push(entries@[i as int]));
            assert(out@ =~= t.filter(|e: FolderEntry| e.is_dynamic).map_values(|e: FolderEntry| e.connection_id));
        } else {
            assert(t.filter(|e: FolderEntry| e.is_dynamic) =~= entries@.take(i as int).filter(|e: FolderEntry| e.is_dynamic));
        }
        i = i + 1;
    }
    assert(entries@.take(entries.len() as int) =~= entries@);
    out
}

/// A session and whether it is being recorded.
#[derive(Clone, Copy, Debug)]
pub struct SessionRecording {
    pub connection_id: u128,
    pub recording: bool,
}

/// The sidebar's recording dot of a connection stays while this event
/// starts a recording or any of its sessions still records.
pub fn still_recording(started: bool, sessions: &[SessionRecording], connection_id: u128) -> (r: bool)
    ensures
        r == (started || exists|i: int| 0 <= i < sessions.len() && #[trigger] sessions@[i].connection_id == connection_id
            && sessions@[i].recording),
{
    if started {
        return true;
    }
    let mut i: usize = 0;
    while i < sessions.len()
        invariant
            i <= sessions.len(),
            forall|j: int| 0 <= j < i ==> !(#[trigger] sessions@[j].connection_id == connection_id && sessions@[j].recording),
        decreases sessions.len() - i,
    {
        if sessions[i].connection_id == connection_id && sessions[i].recording {
            return true;
        }
        i = i + 1;
    }
    false
}


// ---------------------------------------------------------------------------
// Sessions manager and host checks
// ---------------------------------------------------------------------------

/// The second line of a session's row: the protocol in capitals for a
/// session without a connection (a local shell or a quick connection), the
/// host and the protocol for one whose connection is found, else nothing.
pub open spec fn session_info_line_spec(no_connection: bool, host: Option<Seq<char>>, protocol: Seq<char>) -> Option<Seq<char>> {
    if no_connection {
        Some(crate::text::unicode_uppercase(protocol))
    } else {
        match host {
            Some(h) => Some(h + " ("@ + crate::text::unicode_uppercase(protocol) + ")"@),
            None => None,
        }
    }
}

/// The second line of a session's row in the sessions manager.
/// `no_connection` says whether the session has the nil connection
/// identifier; `host` is the host of its connection, when found.
pub fn session_info_line(no_connection: bool, host: Option<&str>, protocol: &str) -> (r: Option<String>)
    ensures
        match r {
            Some(s) => session_info_line_spec(no_connection, opt_view(host), protocol@) == Some(s@),
            None => session_info_line_spec(no_connection, opt_view(host), protocol@) is None,
        },
{
    let upper = crate::text::str_to_uppercase(protocol);
    if no_connection {
        return Some(upper);
    }
    match host {
        Some(h) => {
            let a = concat_chars(&chars_of(h), &chars_of(" ("));
            let b = concat_chars(&a, &chars_of(upper.as_str()));
            Some(string_of(&concat_chars(&b, &chars_of(")"))))
        },
        None => None,
    }
}

/// SSH and local shell sessions show the terminal icon in the sessions
/// manager; other protocols show their own.
pub fn session_uses_terminal_icon(protocol: &str) -> (r: bool)
    ensures
        r == (protocol@ == "ssh"@ || protocol@ == "local"@),
{
    str_eq(protocol, "ssh") || str_eq(protocol, "local")
}

/// How a host is polled until it answers: probe timeout, poll interval and
/// the longest wait, in seconds. After Wake-on-LAN the host may take up to
/// five minutes to boot; a plain check waits two.
pub fn host_poll_timing(after_wake_on_lan: bool) -> (r: (u64, u64, u64))
    ensures
        r == (if after_wake_on_lan { (3u64, 5u64, 300u64) } else { (3u64, 5u64, 120u64) }),
{
    if after_wake_on_lan {
        (3, 5, 300)
    } else {
        (3, 5, 120)
    }
}
} // verus!
