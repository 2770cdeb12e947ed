//! Reading `KEY=value` settings files next to the executable.
use vstd::prelude::*;
use crate::text::{
    Sep, split, split_vec, vviews, chars_of, find, find_str, slice_of, split_once, split_once_str, starts_with, starts_with_str,
    string_of, trim, trim_end, trim_end_vec, trim_vec, ends_with,
};

verus! {

/// `value` cut at the first ` #` and right-trimmed, or `value` unchanged
/// when it holds no ` #`.
pub open spec fn spec_strip_inline_comment(value: Seq<char>) -> Seq<char> {
    match find(value, " #"@) {
        Some(pos) => trim_end(value.take(pos)),
        None => value,
    }
}

pub fn strip_inline_comment(value: &str) -> (r: String)
    ensures
        r@ == spec_strip_inline_comment(value@),
{
    proof {
        reveal_strlit(" #");
    }
    let v = chars_of(value);
    match find_str(&v, " #") {
        Some(pos) => {
            let head = slice_of(&v, 0, pos);
            assert(head@ =~= v@.take(pos as int));
            string_of(trim_end_vec(&head).as_slice())
        },
        None => string_of(v.as_slice()),
    }
}

/// A value wrapped in a pair of `"` or of `'` (at least two characters).
pub open spec fn is_quoted(v: Seq<char>) -> bool {
    v.len() >= 2 && ((v[0] == '"' && v.last() == '"') || (v[0] == '\'' && v.last() == '\''))
}

/// One line of a settings file: blank lines and lines starting with `#` or `;`
/// hold nothing; an `export ` prefix is dropped; the key is the trimmed text
/// before the first `=` and must not be blank; the value is the trimmed rest,
/// unquoted when quoted, else with an inline ` #` comment removed.
pub open spec fn spec_parse_dotenv_kv(line: Seq<char>) -> Option<(Seq<char>, Seq<char>)> {
    let l0 = trim(line);
    if l0.len() == 0 || l0[0] == '#' || l0[0] == ';' {
        None
    } else {
        let l = if starts_with(l0, "export "@) {
            trim(l0.skip(7))
        } else {
            l0
        };
        match split_once(l, "="@) {
            None => None,
            Some((k, raw)) => {
                let key = trim(k);
                if key.len() == 0 {
                    None
                } else {
                    let v = trim(raw);
                    let value = if is_quoted(v) {
                        v.subrange(1, v.len() - 1)
                    } else {
                        spec_strip_inline_comment(v)
                    };
                    Some((key, value))
                }
            },
        }
    }
}

pub fn parse_dotenv_kv(line: &str) -> (r: Option<(String, String)>)
    ensures
        match r {
            Some((k, v)) => spec_parse_dotenv_kv(line@) == Some((k@, v@)),
            None => spec_parse_dotenv_kv(line@) is None,
        },
{
    proof {
        reveal_strlit("export ");
        reveal_strlit("=");
    }
    let l0 = trim_vec(&chars_of(line));
    if l0.len() == 0 || l0[0] == '#' || l0[0] == ';' {
        return None;
    }
    let l = if starts_with_str(&l0, "export ") {
        let rest = slice_of(&l0, 7, l0.len());
        assert(rest@ =~= l0@.skip(7));
        trim_vec(&rest)
    } else {
        l0
    };
    let (k, raw) = match split_once_str(&l, "=") {
        Some(parts) => parts,
        None => return None,
    };
    let key = trim_vec(&k);
    if key.len() == 0 {
        return None;
    }
    let v = trim_vec(&raw);
    let n = v.len();
    let quoted = n >= 2 && ((v[0] == '"' && v[n - 1] == '"') || (v[0] == '\'' && v[n - 1]
        == '\''));
    let value = if quoted {
        string_of(slice_of(&v, 1, n - 1).as_slice())
    } else {
        strip_inline_comment(string_of(v.as_slice()).as_str())
    };
    Some((string_of(key.as_slice()), value))
}

/// The settings file names looked for, in order of preference.
pub open spec fn env_candidate(i: int) -> Seq<char> {
    if i == 0 {
        "codexmanager.env"@
    } else if i == 1 {
        "CodexManager.env"@
    } else {
        ".env"@
    }
}

pub open spec fn env_candidate_count() -> int {
    3
}

fn env_candidate_text(i: usize) -> (r: &'static str)
    requires
        i < 3,
    ensures
        r@ == env_candidate(i as int),
{
    proof {
        reveal_strlit("codexmanager.env");
        reveal_strlit("CodexManager.env");
        reveal_strlit(".env");
    }
    if i == 0 {
        "codexmanager.env"
    } else if i == 1 {
        "CodexManager.env"
    } else {
        ".env"
    }
}

/// `is_file` answered `answer` for the name `name`.
pub open spec fn file_check_said<F: Fn(&str) -> bool>(is_file: F, name: Seq<char>, answer: bool) -> bool {
    exists|n: &str, b: bool| #[trigger] is_file.ensures((n,), b) && n@ == name && b == answer
}

/// The first settings file name for which `is_file` (the check that the name
/// is a file in the directory) says yes.
pub fn find_env_file_in_dir<F: Fn(&str) -> bool>(is_file: F) -> (r: Option<&'static str>)
    requires
        forall|n: &str| is_file.requires((n,)),
    ensures
        match r {
            Some(name) => exists|i: int|
                0 <= i < env_candidate_count() && name@ == env_candidate(i) && file_check_said(
                    is_file,
                    env_candidate(i),
                    true,
                ) && forall|j: int|
                    0 <= j < i ==> file_check_said(is_file, #[trigger] env_candidate(j), false),
            None => forall|j: int|
                0 <= j < env_candidate_count() ==> file_check_said(
                    is_file,
                    #[trigger] env_candidate(j),
                    false,
                ),
        },
{
    let mut i: usize = 0;
    while i < 3
        invariant
            i <= 3,
            forall|n: &str| is_file.requires((n,)),
            forall|j: int| 0 <= j < i ==> file_check_said(is_file, #[trigger] env_candidate(j), false),
        decreases 3 - i,
    {
        let name = env_candidate_text(i);
        let found = is_file(name);
        if found {
            assert(file_check_said(is_file, env_candidate(i as int), true));
            return Some(name);
        }
        assert(file_check_said(is_file, env_candidate(i as int), false));
        i += 1;
    }
    None
}

/// The settings that the lines of a file assign, in order.
pub open spec fn spec_assignments(lines: Seq<Seq<char>>) -> Seq<(Seq<char>, Seq<char>)>
    decreases lines.len(),
{
    if lines.len() == 0 {
        Seq::empty()
    } else {
        (match spec_parse_dotenv_kv(lines[0]) {
            Some(kv) => seq![kv],
            None => Seq::empty(),
        }) + spec_assignments(lines.drop_first())
    }
}

pub open spec fn pairs_view(v: Seq<(String, String)>) -> Seq<(Seq<char>, Seq<char>)> {
    v.map_values(|p: (String, String)| (p.0@, p.1@))
}

/// The `KEY=value` settings of a settings file's text, line by line (the
/// caller applies each one whose key is not yet set in the environment).
pub fn dotenv_assignments(text: &str) -> (r: Vec<(String, String)>)
    ensures
        pairs_view(r@) == spec_assignments(split(text@, Sep::Char('\n'))),
{
    let lines = split_vec(&chars_of(text), &Sep::Char('\n'));
    let ghost all = vviews(lines@);
    let mut r: Vec<(String, String)> = Vec::new();
    let mut i: usize = 0;
    assert(all.skip(0) =~= all);
    while i < lines.len()
        invariant
            i <= lines.len(),
            all == vviews(lines@),
            all == split(text@, Sep::Char('\n')),
            pairs_view(r@) + spec_assignments(all.skip(i as int)) == spec_assignments(all),
        decreases lines.len() - i,
    {
        let ghost rest = all.skip(i as int);
        assert(rest[0] == lines@[i as int]@);
        assert(rest.drop_first() =~= all.skip(i + 1));
        let ghost before = r@;
        let line = string_of(lines[i].as_slice());
        match parse_dotenv_kv(line.as_str()) {
            Some(kv) => {
                r.push(kv);
                assert(pairs_view(r@) =~= pairs_view(before) + seq![(kv.0@, kv.1@)]);
            },
            None => {},
        }
        assert(pairs_view(r@) + spec_assignments(all.skip(i + 1)) =~= pairs_view(before)
            + spec_assignments(rest));
        i += 1;
    }
    assert(all.skip(lines.len() as int) =~= Seq::<Seq<char>>::empty());
    assert(pairs_view(r@) =~= pairs_view(r@) + spec_assignments(Seq::<Seq<char>>::empty()));
    r
}

/// The assignments that take effect, in order: one whose key is already set
/// (in the environment, or by an earlier line of the file) is skipped.
pub open spec fn spec_to_apply(
    assignments: Seq<(Seq<char>, Seq<char>)>,
    set: Set<Seq<char>>,
) -> Seq<(Seq<char>, Seq<char>)>
    decreases assignments.len(),
{
    if assignments.len() == 0 {
        Seq::empty()
    } else {
        let kv = assignments[0];
        if set.contains(kv.0) {
            spec_to_apply(assignments.drop_first(), set)
        } else {
            seq![kv] + spec_to_apply(assignments.drop_first(), set.insert(kv.0))
        }
    }
}

pub open spec fn names_view(v: Seq<String>) -> Set<Seq<char>> {
    v.map_values(|s: String| s@).to_set()
}

fn holds_name(names: &Vec<String>, key: &str) -> (r: bool)
    ensures
        r == names@.map_values(|s: String| s@).contains(key@),
{
    let ghost nv = names@.map_values(|s: String| s@);
    let k = chars_of(key);
    let mut i: usize = 0;
    while i < names.len()
        invariant
            i <= names.len(),
            k@ == key@,
            nv == names@.map_values(|s: String| s@),
            forall|j: int| 0 <= j < i ==> nv[j] != key@,
        decreases names.len() - i,
    {
        if crate::text::seq_equal(&chars_of(names[i].as_str()), &k) {
            assert(nv[i as int] == key@);
            return true;
        }
        i += 1;
    }
    proof {
        if nv.contains(key@) {
            let j = choose|j: int| 0 <= j < nv.len() && #[trigger] nv[j] == key@;
            assert(nv[j] == key@);
        }
    }
    false
}

/// The settings of a settings file's text that are to be set, given the names
/// of the variables already in the environment: each line's assignment, in
/// order, unless its key is already set or was set by an earlier line.
pub fn env_assignments_to_apply(text: &str, present: &Vec<String>) -> (r: Vec<(String, String)>)
    ensures
        pairs_view(r@) == spec_to_apply(
            spec_assignments(split(text@, Sep::Char('\n'))),
            names_view(present@),
        ),
{
    let all = dotenv_assignments(text);
    let ghost av = pairs_view(all@);
    let mut seen: Vec<String> = Vec::new();
    let mut i: usize = 0;
    while i < present.len()
        invariant
            i <= present.len(),
            seen@.map_values(|s: String| s@) == present@.map_values(|s: String| s@).take(i as int),
        decreases present.len() - i,
    {
        let ghost before = seen@;
        seen.push(crate::text::str_to_string(present[i].as_str()));
        assert(seen@.map_values(|s: String| s@) =~= before.map_values(|s: String| s@).push(
            present@[i as int]@,
        ));
        assert(present@.map_values(|s: String| s@).take(i + 1) =~= present@.map_values(
            |s: String| s@,
        ).take(i as int).push(present@[i as int]@));
        i += 1;
    }
    assert(present@.map_values(|s: String| s@).take(present.len() as int) =~= present@.map_values(
        |s: String| s@,
    ));
    let mut r: Vec<(String, String)> = Vec::new();
    let mut j: usize = 0;
    assert(av.skip(0) =~= av);
    while j < all.len()
        invariant
            j <= all.len(),
            av == pairs_view(all@),
            pairs_view(r@) + spec_to_apply(av.skip(j as int), names_view(seen@)) == spec_to_apply(
                av,
                names_view(present@),
            ),
        decreases all.len() - j,
    {
        let ghost rest = av.skip(j as int);
        assert(rest[0] == (all@[j as int].0@, all@[j as int].1@));
        assert(rest.drop_first() =~= av.skip(j + 1));
        let ghost before_r = r@;
        let ghost before_seen = seen@;
        let key = all[j].0.as_str();
        if !holds_name(&seen, key) {
            let k = crate::text::str_to_string(key);
            let v = crate::text::str_to_string(all[j].1.as_str());
            seen.push(crate::text::str_to_string(key));
            r.push((k, v));
            assert(seen@.map_values(|s: String| s@) =~= before_seen.map_values(|s: String| s@).push(
                key@,
            ));
            proof {
                before_seen.map_values(|s: String| s@).lemma_push_to_set_commute(key@);
            }
            assert(names_view(seen@) =~= names_view(before_seen).insert(key@));
            assert(pairs_view(r@) =~= pairs_view(before_r) + seq![(key@, all@[j as int].1@)]);
        }
        assert(names_view(before_seen).contains(key@) == before_seen.map_values(|s: String| s@).contains(key@));
        j += 1;
    }
    assert(av.skip(all.len() as int) =~= Seq::<(Seq<char>, Seq<char>)>::empty());
    assert(pairs_view(r@) =~= pairs_view(r@) + spec_to_apply(
        Seq::<(Seq<char>, Seq<char>)>::empty(),
        names_view(seen@),
    ));
    r
}

} // verus!
