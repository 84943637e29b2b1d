use vstd::prelude::*;
use vstd::string::StringExecFns;
use crate::error::UpdateError;
use crate::launcher::{instance_name, instance_name_of};

verus! {

#[verifier::external_type_specification]
#[verifier::external_body]
pub struct ExRegexError(regex::Error);

/// The lines of `t`: the pieces between `\n` characters (an empty text has one empty line).
pub open spec fn split_lines(t: Seq<char>) -> Seq<Seq<char>>
    decreases t.len(),
{
    if t.len() == 0 {
        seq![Seq::<char>::empty()]
    } else {
        let rest = split_lines(t.drop_first());
        if t[0] == '\n' {
            seq![Seq::<char>::empty()] + rest
        } else {
            rest.update(0, seq![t[0]] + rest[0])
        }
    }
}

/// Lines put back together with `\n` between them.
pub open spec fn join_lines(ls: Seq<Seq<char>>) -> Seq<char>
    decreases ls.len(),
{
    if ls.len() == 0 {
        Seq::empty()
    } else if ls.len() == 1 {
        ls[0]
    } else {
        ls[0] + seq!['\n'] + join_lines(ls.drop_first())
    }
}

/// A line that starts with `name=`.
pub open spec fn is_name_line(l: Seq<char>) -> bool {
    l.len() >= 5 && l.subrange(0, 5) == "name="@
}

/// The lines of `t`, each name line replaced by `rep`.
pub open spec fn patched_lines(t: Seq<char>, rep: Seq<char>) -> Seq<Seq<char>> {
    split_lines(t).map_values(|l: Seq<char>| if is_name_line(l) { rep } else { l })
}

/// `t` with every line that starts with `name=` replaced whole by `rep`.
pub open spec fn replace_name_lines_spec(t: Seq<char>, rep: Seq<char>) -> Seq<char> {
    join_lines(patched_lines(t, rep))
}

/// Relies on regex::Regex::new and Regex::replace_all with a literal
/// (`NoExpand`) replacement: with the multi-line pattern `^name=.*$`, `^`
/// matches at the start of each line, `.` matches anything but `\n`, so each
/// line beginning with `name=` is replaced whole and nothing else changes.
/// `Regex::new` fails only on an invalid pattern or one over the size
/// limit, and this fixed pattern is neither.
#[verifier::external_body]
fn regex_replace_all(pattern: &str, text: &str, rep: &str) -> (r: Result<String, regex::Error>)
    requires
        pattern@ == "(?m)^name=.*$"@,
    ensures
        r is Ok,
        r matches Ok(s) ==> s@ == replace_name_lines_spec(text@, rep@),
{
    regex::Regex::new(pattern).map(|re| re.replace_all(text, regex::NoExpand(rep)).into_owned())
}

pub open spec fn name_line_of(tag: Seq<char>) -> Seq<char> {
    "name="@ + instance_name_of(tag)
}

/// The Prism instance config with its `name=` line set to the instance name
/// of `tag`; every other line is kept as it was.
pub fn patch_instance_config(cfg: &str, tag: &str) -> (r: Result<String, UpdateError>)
    ensures
        r is Ok,
        r matches Ok(s) ==> s@ == replace_name_lines_spec(cfg@, name_line_of(tag@)),
{
    let name = instance_name(tag);
    let rep = String::from_str("name=").concat(name.as_str());
    match regex_replace_all("(?m)^name=.*$", cfg, rep.as_str()) {
        Ok(s) => Ok(s),
        Err(_) => Err(UpdateError::Pattern),
    }
}

pub open spec fn no_newline(l: Seq<char>) -> bool {
    forall|i: int| 0 <= i < l.len() ==> l[i] != '\n'
}

proof fn lemma_split_single(l: Seq<char>)
    requires
        no_newline(l),
    ensures
        split_lines(l) == seq![l],
    decreases l.len(),
{
    if l.len() > 0 {
        lemma_split_single(l.drop_first());
        assert(seq![l[0]] + l.drop_first() =~= l);
        assert(split_lines(l) =~= seq![l]);
    } else {
        assert(l =~= Seq::<char>::empty());
    }
}

proof fn lemma_split_prefix(l: Seq<char>, t: Seq<char>)
    requires
        no_newline(l),
    ensures
        split_lines(l + seq!['\n'] + t) == seq![l] + split_lines(t),
    decreases l.len(),
{
    let whole = l + seq!['\n'] + t;
    if l.len() == 0 {
        assert(whole.drop_first() =~= t);
        assert(l =~= Seq::<char>::empty());
    } else {
        lemma_split_prefix(l.drop_first(), t);
        assert(whole.drop_first() =~= l.drop_first() + seq!['\n'] + t);
        assert(seq![l[0]] + l.drop_first() =~= l);
        assert(split_lines(whole) =~= seq![l] + split_lines(t));
    }
}

/// Splitting joined lines that hold no `\n` gives the lines back.
pub proof fn lemma_split_join(ls: Seq<Seq<char>>)
    requires
        ls.len() >= 1,
        forall|k: int| 0 <= k < ls.len() ==> no_newline(#[trigger] ls[k]),
    ensures
        split_lines(join_lines(ls)) == ls,
    decreases ls.len(),
{
    if ls.len() == 1 {
        lemma_split_single(ls[0]);
        assert(seq![ls[0]] =~= ls);
    } else {
        let rest = ls.drop_first();
        assert forall|k: int| 0 <= k < rest.len() implies no_newline(#[trigger] rest[k]) by {
            assert(rest[k] == ls[k + 1]);
        }
        lemma_split_join(rest);
        assert(no_newline(ls[0]));
        lemma_split_prefix(ls[0], join_lines(rest));
        assert(seq![ls[0]] + rest =~= ls);
    }
}

/// Patching the config keeps every line but the name lines byte for byte,
/// and puts `name=<pack name> - <tag>` in place of each name line; so a
/// config with exactly one name line has only that line replaced.
pub proof fn lemma_config_patch_lines(cfg: Seq<char>, tag: Seq<char>)
    requires
        no_newline(tag),
    ensures
        split_lines(replace_name_lines_spec(cfg, name_line_of(tag))).len() == split_lines(
            cfg,
        ).len(),
        forall|k: int|
            0 <= k < split_lines(cfg).len() ==> #[trigger] split_lines(
                replace_name_lines_spec(cfg, name_line_of(tag)),
            )[k] == if is_name_line(split_lines(cfg)[k]) {
                name_line_of(tag)
            } else {
                split_lines(cfg)[k]
            },
{
    let rep = name_line_of(tag);
    let ls = split_lines(cfg);
    let mapped = patched_lines(cfg, rep);
    lemma_lines_have_no_newline(cfg);
    reveal_strlit("name=");
    reveal_strlit(" - ");
    reveal_strlit("Originalife Season 4");
    assert(no_newline(rep));
    assert forall|k: int| 0 <= k < mapped.len() implies no_newline(#[trigger] mapped[k]) by {
        assert(no_newline(ls[k]));
    }
    lemma_split_len(cfg);
    lemma_split_join(mapped);
}

proof fn lemma_split_len(t: Seq<char>)
    ensures
        split_lines(t).len() >= 1,
    decreases t.len(),
{
    if t.len() > 0 {
        lemma_split_len(t.drop_first());
    }
}

proof fn lemma_lines_have_no_newline(t: Seq<char>)
    ensures
        forall|k: int|
            0 <= k < split_lines(t).len() ==> no_newline(#[trigger] split_lines(t)[k]),
    decreases t.len(),
{
    lemma_split_len(t);
    if t.len() > 0 {
        lemma_lines_have_no_newline(t.drop_first());
        lemma_split_len(t.drop_first());
        let rest = split_lines(t.drop_first());
        if t[0] != '\n' {
            assert(no_newline(seq![t[0]] + rest[0]));
        }
    }
}

} // verus!
