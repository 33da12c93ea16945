//! Where the app looks for the tools it runs: ordered lists of candidate
//! paths, each given as the parts to join, the first existing one winning.
use vstd::prelude::*;
use crate::platform::Platform;
use crate::text::{self, owned};

verus! {

/// Appends a copy of `a` to `args`.
pub fn push_arg(args: &mut Vec<String>, a: &str)
    ensures
        text::sviews(final(args)@) == text::sviews(old(args)@).push(a@),
{
    let s = owned(a);
    let ghost before = args@;
    args.push(s);
    assert(text::sviews(args@) =~= text::sviews(before).push(a@));
}

/// Appends `a` to `args`.
pub fn push_string_arg(args: &mut Vec<String>, a: String)
    ensures
        text::sviews(final(args)@) == text::sviews(old(args)@).push(a@),
{
    let ghost before = args@;
    let ghost v = a@;
    args.push(a);
    assert(text::sviews(args@) =~= text::sviews(before).push(v));
}

/// The view of an optional string slice.
pub open spec fn str_opt(o: Option<&str>) -> Option<Seq<char>> {
    match o {
        Some(s) => Some(s@),
        None => None,
    }
}

/// The views of a list of candidate paths, each a list of parts to join.
pub open spec fn candidate_views(v: Seq<Vec<String>>) -> Seq<Seq<Seq<char>>> {
    v.map_values(|c: Vec<String>| text::sviews(c@))
}

/// For each directory, the path to `name` inside it.
pub open spec fn in_dirs(dirs: Seq<Seq<char>>, name: Seq<char>) -> Seq<Seq<Seq<char>>> {
    dirs.map_values(|d: Seq<char>| seq![d, name])
}

/// Appends one candidate.
pub fn push_one(out: &mut Vec<Vec<String>>, c: Vec<String>)
    ensures
        candidate_views(final(out)@) == candidate_views(old(out)@).push(text::sviews(c@)),
{
    let ghost before = out@;
    let ghost cv = text::sviews(c@);
    out.push(c);
    assert(candidate_views(out@) =~= candidate_views(before).push(cv));
}

/// Appends, for each directory of `dirs`, the path of `name` inside it.
pub fn push_in_dirs(out: &mut Vec<Vec<String>>, dirs: &Vec<String>, name: &str)
    ensures
        candidate_views(final(out)@) == candidate_views(old(out)@) + in_dirs(
            text::sviews(dirs@),
            name@,
        ),
{
    let ghost start = candidate_views(out@);
    let mut i: usize = 0;
    while i < dirs.len()
        invariant
            i <= dirs@.len(),
            candidate_views(out@) == start + in_dirs(text::sviews(dirs@), name@).take(i as int),
        decreases dirs@.len() - i,
    {
        let mut c: Vec<String> = Vec::new();
        push_string_arg(&mut c, dirs[i].clone());
        push_arg(&mut c, name);
        let ghost before = out@;
        let ghost cv = text::sviews(c@);
        out.push(c);
        assert(cv =~= seq![dirs@[i as int]@, name@]);
        assert(candidate_views(out@) =~= candidate_views(before).push(cv));
        assert(in_dirs(text::sviews(dirs@), name@).take(i + 1) =~= in_dirs(
            text::sviews(dirs@),
            name@,
        ).take(i as int).push(cv));
        i = i + 1;
    }
    assert(in_dirs(text::sviews(dirs@), name@).take(dirs@.len() as int) =~= in_dirs(
        text::sviews(dirs@),
        name@,
    ));
}

/// The directories of a `PATH` value, none when it is unset.
pub open spec fn path_dirs(path_var: Option<Seq<char>>, platform: Platform) -> Seq<Seq<char>> {
    match path_var {
        Some(p) => text::split(p, if platform == Platform::Windows { ';' } else { ':' }),
        None => Seq::empty(),
    }
}

} // verus!
