use vstd::prelude::*;

verus! {

/// Whether `regex::Regex::new` accepts this pattern text (under the crate's
/// default size limit); a function of the pattern alone.
pub uninterp spec fn regex_valid(pattern: Seq<char>) -> bool;

/// What `regex::Regex::replace_all` returns: the haystack with every
/// non-overlapping match of the pattern replaced, group references in the
/// replacement expanded; a function of its three arguments alone.
pub uninterp spec fn regex_replaced(
    pattern: Seq<char>,
    replacement: Seq<char>,
    haystack: Seq<char>,
) -> Seq<char>;

/// Relies on regex::Regex::new: whether a pattern compiles depends on the
/// pattern text alone.
#[verifier::external_body]
fn regex_compiles(pattern: &str) -> (r: bool)
    ensures
        r == regex_valid(pattern@),
{
    regex::Regex::new(pattern).is_ok()
}

/// Relies on regex::Regex::new and regex::Regex::replace_all: for a pattern
/// that compiles, the result of replacing every non-overlapping match
/// depends on the pattern, the replacement and the haystack alone.
#[verifier::external_body]
fn regex_apply(pattern: &str, replacement: &str, haystack: &str) -> (r: String)
    requires
        regex_valid(pattern@),
    ensures
        r@ == regex_replaced(pattern@, replacement@, haystack@),
{
    let re = regex::Regex::new(pattern).unwrap();
    re.replace_all(haystack, replacement).into_owned()
}

/// An ordered list of substitutions, each pattern validated and paired with
/// its replacement.
pub struct SubstRules {
    pub pairs: Vec<(String, String)>,
}

impl View for SubstRules {
    type V = Seq<(Seq<char>, Seq<char>)>;

    open spec fn view(&self) -> Seq<(Seq<char>, Seq<char>)> {
        self.pairs@.map_values(|p: (String, String)| (p.0@, p.1@))
    }
}

pub open spec fn rules_wf(rules: Seq<(Seq<char>, Seq<char>)>) -> bool {
    forall|i: int| 0 <= i < rules.len() ==> regex_valid(#[trigger] rules[i].0)
}

/// Each pattern paired with its replacement by position; a pattern past the
/// end of the replacement list gets the empty replacement, and a replacement
/// past the end of the pattern list is dropped.
pub open spec fn padded_pairs(patterns: Seq<Seq<char>>, replacements: Seq<Seq<char>>) -> Seq<
    (Seq<char>, Seq<char>),
> {
    Seq::new(
        patterns.len(),
        |i: int|
            (
                patterns[i],
                if i < replacements.len() {
                    replacements[i]
                } else {
                    Seq::empty()
                },
            ),
    )
}

/// The whole pipeline: each rule applied, in order, to the result of the
/// previous one.
pub open spec fn applied(rules: Seq<(Seq<char>, Seq<char>)>, line: Seq<char>) -> Seq<char>
    decreases rules.len(),
{
    if rules.len() == 0 {
        line
    } else {
        applied(rules.drop_first(), regex_replaced(rules.first().0, rules.first().1, line))
    }
}

/// A substitution pattern the regex engine refuses, named by its position in
/// the pattern list.
#[derive(Clone, Copy, PartialEq, Eq, Structural, Debug)]
pub struct SubstError {
    pub index: usize,
}

/// Validates every pattern and pairs it with its replacement by position.
/// Fails on the first pattern that does not compile, before any line is
/// touched.
pub fn compile_substitutions(patterns: &Vec<String>, replacements: &Vec<String>) -> (r: Result<
    SubstRules,
    SubstError,
>)
    ensures
        (r is Ok) <==> (forall|i: int|
            0 <= i < patterns@.len() ==> regex_valid(#[trigger] patterns@[i]@)),
        r matches Ok(rules) ==> rules@ == padded_pairs(
            patterns@.map_values(|s: String| s@),
            replacements@.map_values(|s: String| s@),
        ) && rules_wf(rules@),
        r matches Err(e) ==> e.index < patterns@.len() && !regex_valid(patterns@[e.index as int]@)
            && (forall|j: int| 0 <= j < e.index ==> regex_valid(#[trigger] patterns@[j]@)),
{
    let ghost pats = patterns@.map_values(|s: String| s@);
    let ghost reps = replacements@.map_values(|s: String| s@);
    let mut pairs: Vec<(String, String)> = Vec::new();
    let mut i: usize = 0;
    while i < patterns.len()
        invariant
            i <= patterns@.len(),
            pats == patterns@.map_values(|s: String| s@),
            reps == replacements@.map_values(|s: String| s@),
            pairs@.len() == i,
            forall|j: int|
                0 <= j < i ==> (#[trigger] pairs@[j]).0@ == pats[j] && pairs@[j].1@ == (
                if j < reps.len() {
                    reps[j]
                } else {
                    Seq::empty()
                }),
            forall|j: int| 0 <= j < i ==> regex_valid(#[trigger] patterns@[j]@),
        decreases patterns@.len() - i,
    {
        if !regex_compiles(patterns[i].as_str()) {
            return Err(SubstError { index: i });
        }
        let rep: String = if i < replacements.len() {
            replacements[i].clone()
        } else {
            String::new()
        };
        pairs.push((patterns[i].clone(), rep));
        i = i + 1;
    }
    let rules = SubstRules { pairs };
    assert(rules@ =~~= padded_pairs(pats, reps));
    Ok(rules)
}

/// Applies every substitution in order, each to the result of the previous
/// one.
pub fn apply_substitutions(rules: &SubstRules, line: &str) -> (r: String)
    requires
        rules_wf(rules@),
    ensures
        r@ == applied(rules@, line@),
{
    let mut current: String = line.to_owned();
    assert(rules@.skip(0) =~= rules@);
    let mut i: usize = 0;
    while i < rules.pairs.len()
        invariant
            i <= rules.pairs@.len(),
            rules_wf(rules@),
            rules@.len() == rules.pairs@.len(),
            applied(rules@, line@) == applied(rules@.skip(i as int), current@),
        decreases rules.pairs@.len() - i,
    {
        assert(rules@.skip(i as int).first() == rules@[i as int]);
        let pat: &String = &rules.pairs[i].0;
        let rep: &String = &rules.pairs[i].1;
        assert(rules@[i as int].0 == pat@ && rules@[i as int].1 == rep@);
        let next = regex_apply(pat.as_str(), rep.as_str(), current.as_str());
        proof {
            assert(rules@.skip(i as int).drop_first() =~= rules@.skip(i + 1 as int));
        }
        current = next;
        i = i + 1;
    }
    proof {
        assert(rules@.skip(rules@.len() as int) =~= Seq::<(Seq<char>, Seq<char>)>::empty());
    }
    current
}

} // verus!
