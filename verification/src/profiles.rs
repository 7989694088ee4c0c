//! The AWS profiles named in the shared config and credentials files.
use vstd::prelude::*;
use crate::aws::dynamodb::{insert_name, strictly_sorted};
use crate::text::{chars_of, lines_of, owned, string_from_chars, sub_chars, text_lines, texts, trim_str, trimmed};

verus! {

/// The profile a line of the config file names: `[profile NAME]` names
/// `NAME`, `[default]` names `default` (the line is trimmed first).
pub open spec fn config_profile(line: Seq<char>) -> Option<Seq<char>> {
    let t = trimmed(line);
    if t.len() >= 10 && t.take(9) == "[profile "@ && t.last() == ']' {
        Some(t.subrange(9, t.len() - 1))
    } else if t == "[default]"@ {
        Some("default"@)
    } else {
        None
    }
}

/// The profile a line of the credentials file names: `[NAME]` names `NAME`
/// (the line is trimmed first).
pub open spec fn credentials_profile(line: Seq<char>) -> Option<Seq<char>> {
    let t = trimmed(line);
    if t.len() >= 2 && t[0] == '[' && t.last() == ']' {
        Some(t.subrange(1, t.len() - 1))
    } else {
        None
    }
}

/// Some line of the config text names `name`.
pub open spec fn config_names(config: Option<Seq<char>>, name: Seq<char>) -> bool {
    match config {
        Some(c) => lines_name(true, text_lines(c), text_lines(c).len() as int, name),
        None => false,
    }
}

/// Some line of the credentials text names `name`.
pub open spec fn credentials_names(credentials: Option<Seq<char>>, name: Seq<char>) -> bool {
    match credentials {
        Some(c) => lines_name(false, text_lines(c), text_lines(c).len() as int, name),
        None => false,
    }
}

fn slice_string(v: &Vec<char>, from: usize, to: usize) -> (r: String)
    requires
        from <= to <= v@.len(),
    ensures
        r@ == v@.subrange(from as int, to as int),
{
    string_from_chars(&sub_chars(v, from, to))
}

/// The profile a line of the config file names (see `config_profile`).
pub fn config_line_profile(line: &str) -> (r: Option<String>)
    ensures
        match config_profile(line@) {
            Some(n) => r is Some && r->0@ == n,
            None => r is None,
        },
{
    let trimmed_line = trim_str(line);
    let t = chars_of(trimmed_line.as_str());
    let n = t.len();
    proof {
        reveal_strlit("[profile ");
        reveal_strlit("[default]");
    }
    if n >= 10 && crate::text::chars_eq(&sub_chars(&t, 0, 9), &chars_of("[profile ")) && t[n - 1] == ']' {
        proof {
            assert(t@.take(9) =~= t@.subrange(0, 9));
        }
        return Some(slice_string(&t, 9, n - 1));
    }
    proof {
        assert(n >= 10 ==> t@.take(9) =~= t@.subrange(0, 9));
    }
    if crate::text::chars_eq(&t, &chars_of("[default]")) {
        Some(owned("default"))
    } else {
        None
    }
}

/// The profile a line of the credentials file names (see
/// `credentials_profile`).
pub fn credentials_line_profile(line: &str) -> (r: Option<String>)
    ensures
        match credentials_profile(line@) {
            Some(n) => r is Some && r->0@ == n,
            None => r is None,
        },
{
    let trimmed_line = trim_str(line);
    let t = chars_of(trimmed_line.as_str());
    let n = t.len();
    if n >= 2 && t[0] == '[' && t[n - 1] == ']' {
        Some(slice_string(&t, 1, n - 1))
    } else {
        None
    }
}

/// The profile a line names, read as a config line or a credentials line.
pub open spec fn line_profile(config: bool, line: Seq<char>) -> Option<Seq<char>> {
    if config {
        config_profile(line)
    } else {
        credentials_profile(line)
    }
}

/// Some of the first `n` lines names `name`.
pub open spec fn lines_name(config: bool, lines: Seq<Seq<char>>, n: int, name: Seq<char>) -> bool {
    exists|t: int| 0 <= t < n && #[trigger] line_profile(config, lines[t]) == Some(name)
}

/// Adds the profiles the lines of `text` name to sorted names.
fn add_line_profiles(names: &mut Vec<String>, text: &str, config: bool)
    requires
        strictly_sorted(texts(old(names)@)),
    ensures
        strictly_sorted(texts(final(names)@)),
        forall|c: Seq<char>|
            texts(final(names)@).contains(c) <==> (texts(old(names)@).contains(c) || lines_name(
                config,
                text_lines(text@),
                text_lines(text@).len() as int,
                c,
            )),
{
    let lines = lines_of(text);
    let n = lines.len();
    let ghost all = text_lines(text@);
    let mut i: usize = 0;
    while i < n
        invariant
            n == lines@.len(),
            texts(lines@) == all,
            all == text_lines(text@),
            0 <= i <= n,
            strictly_sorted(texts(names@)),
            forall|c: Seq<char>|
                texts(names@).contains(c) <==> (texts(old(names)@).contains(c) || lines_name(config, all, i as int, c)),
        decreases n - i,
    {
        proof {
            assert(texts(lines@)[i as int] == lines@[i as int]@);
        }
        let found = if config {
            config_line_profile(lines[i].as_str())
        } else {
            credentials_line_profile(lines[i].as_str())
        };
        match &found {
            Some(name) => insert_name(names, name),
            None => {},
        }
        proof {
            assert forall|c: Seq<char>|
                texts(names@).contains(c) <==> (texts(old(names)@).contains(c) || lines_name(config, all, i + 1, c)) by {
                if lines_name(config, all, i + 1, c) {
                    let t = choose|t: int| 0 <= t < i + 1 && #[trigger] line_profile(config, all[t]) == Some(c);
                    if t < i {
                        assert(lines_name(config, all, i as int, c));
                    }
                }
                if lines_name(config, all, i as int, c) {
                    let t = choose|t: int| 0 <= t < i && #[trigger] line_profile(config, all[t]) == Some(c);
                    assert(line_profile(config, all[t]) == Some(c));
                }
                if found is Some && c == found->0@ {
                    assert(line_profile(config, all[i as int]) == Some(c));
                }
            }
        }
        i = i + 1;
    }
    proof {
        assert(all.len() == n);
        assert forall|c: Seq<char>|
            texts(names@).contains(c) <==> (texts(old(names)@).contains(c) || lines_name(
                config,
                text_lines(text@),
                text_lines(text@).len() as int,
                c,
            )) by {
            assert(lines_name(config, all, i as int, c) == lines_name(config, text_lines(text@), text_lines(text@).len() as int, c));
        }
    }
}

/// The profiles named in the config text and the credentials text (each
/// absent when its file could not be read), sorted, each once.
pub fn parse_profiles(config: Option<&str>, credentials: Option<&str>) -> (r: Vec<String>)
    ensures
        strictly_sorted(texts(r@)),
        forall|c: Seq<char>|
            texts(r@).contains(c) <==> (config_names(
                match config {
                    Some(t) => Some(t@),
                    None => None,
                },
                c,
            ) || credentials_names(
                match credentials {
                    Some(t) => Some(t@),
                    None => None,
                },
                c,
            )),
{
    let mut names: Vec<String> = Vec::new();
    proof {
        assert(texts(names@) =~= Seq::<Seq<char>>::empty());
    }
    match config {
        Some(t) => add_line_profiles(&mut names, t, true),
        None => {},
    }
    match credentials {
        Some(t) => add_line_profiles(&mut names, t, false),
        None => {},
    }
    names
}

} // verus!
