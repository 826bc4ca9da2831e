use vstd::prelude::*;
use vstd::string::StrSliceExecFns;

use crate::chars::{
    char_is_control, char_is_whitespace, is_control_char, is_list_start, is_list_start_char,
    is_whitespace_char,
};
use crate::config::Config;
use crate::subst::{
    applied, apply_substitutions, compile_substitutions, padded_pairs, regex_valid, rules_wf,
    SubstError, SubstRules,
};
use crate::wrap::{
    feed, feed_chars, initial_state, lines_view, state_inv, StateModel, WrapState,
};

verus! {

pub open spec fn spec_trim_end(s: Seq<char>) -> Seq<char>
    decreases s.len(),
{
    if s.len() == 0 {
        s
    } else if is_whitespace_char(s.last()) {
        spec_trim_end(s.drop_last())
    } else {
        s
    }
}

pub open spec fn spec_trim_start(s: Seq<char>) -> Seq<char>
    decreases s.len(),
{
    if s.len() == 0 {
        s
    } else if is_whitespace_char(s.first()) {
        spec_trim_start(s.drop_first())
    } else {
        s
    }
}

/// A completed line as it leaves the system: kept as it is, or with its
/// trailing whitespace stripped.
pub open spec fn rendered(line: Seq<char>, keep: bool) -> Seq<char> {
    if keep {
        line
    } else {
        spec_trim_end(line)
    }
}

pub open spec fn rendered_all(lines: Seq<Seq<char>>, keep: bool) -> Seq<Seq<char>> {
    lines.map_values(|l: Seq<char>| rendered(l, keep))
}

/// A line that opens a new paragraph when re-wrapping: its first
/// non-whitespace character is a control character or a bullet marker, or
/// the line is entirely whitespace.
pub open spec fn spec_is_new_paragraph(s: Seq<char>) -> bool
    decreases s.len(),
{
    if s.len() == 0 {
        true
    } else if !is_whitespace_char(s.first()) {
        is_control_char(s.first()) || is_list_start_char(s.first())
    } else {
        spec_is_new_paragraph(s.drop_first())
    }
}

pub fn is_new_paragraph(s: &Vec<char>) -> (r: bool)
    ensures
        r == spec_is_new_paragraph(s@),
{
    let mut i: usize = 0;
    assert(s@.skip(0) =~= s@);
    while i < s.len()
        invariant
            i <= s.len(),
            spec_is_new_paragraph(s@) == spec_is_new_paragraph(s@.skip(i as int)),
        decreases s.len() - i,
    {
        let c = s[i];
        assert(s@.skip(i as int).first() == c);
        if !char_is_whitespace(c) {
            return char_is_control(c) || is_list_start(c);
        }
        proof {
            assert(s@.skip(i as int).drop_first() =~= s@.skip(i + 1 as int));
        }
        i = i + 1;
    }
    assert(s@.skip(s@.len() as int) =~= Seq::<char>::empty());
    true
}

/// The characters of a string, in order.
pub fn str_chars(s: &str) -> (r: Vec<char>)
    ensures
        r@ == s@,
{
    let n = s.unicode_len();
    let mut r: Vec<char> = Vec::new();
    let mut i: usize = 0;
    while i < n
        invariant
            n == s@.len(),
            i <= n,
            r@ == s@.take(i as int),
        decreases n - i,
    {
        r.push(s.get_char(i));
        assert(r@ =~= s@.take(i + 1 as int));
        i = i + 1;
    }
    assert(r@ =~= s@);
    r
}

/// Relies on std's `String`: collecting characters yields the string of
/// exactly those characters, in order.
#[verifier::external_body]
fn chars_string(v: &Vec<char>) -> (r: String)
    ensures
        r@ == v@,
{
    v.iter().collect()
}

pub fn trim_end_chars(v: &Vec<char>) -> (r: Vec<char>)
    ensures
        r@ == spec_trim_end(v@),
{
    let mut n: usize = v.len();
    assert(v@.take(v@.len() as int) =~= v@);
    while n > 0 && char_is_whitespace(v[n - 1])
        invariant
            n <= v.len(),
            spec_trim_end(v@) == spec_trim_end(v@.take(n as int)),
        decreases n,
    {
        proof {
            assert(v@.take(n as int).last() == v@[n - 1]);
            assert(v@.take(n as int).drop_last() =~= v@.take(n - 1 as int));
        }
        n = n - 1;
    }
    let mut r: Vec<char> = Vec::new();
    let mut i: usize = 0;
    while i < n
        invariant
            i <= n,
            n <= v.len(),
            r@ == v@.take(n as int).take(i as int),
        decreases n - i,
    {
        r.push(v[i]);
        assert(r@ =~= v@.take(n as int).take(i + 1 as int));
        i = i + 1;
    }
    proof {
        assert(v@.take(n as int).take(n as int) =~= v@.take(n as int));
        if n > 0 {
            assert(v@.take(n as int).last() == v@[n - 1]);
        }
    }
    r
}

pub fn trim_start_chars(v: &Vec<char>) -> (r: Vec<char>)
    ensures
        r@ == spec_trim_start(v@),
{
    let mut i: usize = 0;
    assert(v@.skip(0) =~= v@);
    while i < v.len() && char_is_whitespace(v[i])
        invariant
            i <= v.len(),
            spec_trim_start(v@) == spec_trim_start(v@.skip(i as int)),
        decreases v.len() - i,
    {
        proof {
            assert(v@.skip(i as int).first() == v@[i as int]);
            assert(v@.skip(i as int).drop_first() =~= v@.skip(i + 1 as int));
        }
        i = i + 1;
    }
    let ghost start = i as int;
    let mut r: Vec<char> = Vec::new();
    assert(r@ =~= v@.subrange(start, start));
    let mut j: usize = i;
    while j < v.len()
        invariant
            0 <= start <= j <= v.len(),
            r@ == v@.subrange(start, j as int),
        decreases v.len() - j,
    {
        r.push(v[j]);
        assert(r@ =~= v@.subrange(start, j + 1 as int));
        j = j + 1;
    }
    proof {
        assert(v@.subrange(start, v@.len() as int) =~= v@.skip(start));
        if i < v.len() {
            assert(v@.skip(start).first() == v@[start]);
        } else {
            assert(v@.skip(start) =~= Seq::<char>::empty());
        }
    }
    r
}

/// One completed line, formatted for output.
pub fn render_line(line: &Vec<char>, keep: bool) -> (r: String)
    ensures
        r@ == rendered(line@, keep),
{
    if keep {
        chars_string(line)
    } else {
        let t = trim_end_chars(line);
        chars_string(&t)
    }
}

/// Everything one input line does to the engine: the paragraph flush when
/// re-wrapping, the substitution pipeline, the joining space, the
/// characters themselves, and the line flush when not re-wrapping. Yields
/// the new state and the completed lines, not yet rendered.
pub open spec fn line_model(
    cfg: Config,
    rules: Seq<(Seq<char>, Seq<char>)>,
    s: StateModel,
    raw: Seq<char>,
) -> (StateModel, Seq<Seq<char>>) {
    let flush = cfg.rewrap && s.buffer.len() > 0 && spec_is_new_paragraph(raw);
    let s0 = if flush {
        initial_state()
    } else {
        s
    };
    let pre: Seq<Seq<char>> = if flush {
        seq![s.buffer]
    } else {
        Seq::empty()
    };
    let subbed = applied(rules, raw);
    let input = if cfg.rewrap && s0.buffer.len() > 0 {
        seq![' '] + spec_trim_start(subbed)
    } else {
        subbed
    };
    let (s1, mid) = feed(cfg, s0, input);
    if !cfg.rewrap {
        (initial_state(), pre + mid + seq![s1.buffer])
    } else {
        (s1, pre + mid)
    }
}

/// Feeds one input line through the engine and returns the completed output
/// lines, rendered.
pub fn process_line(cfg: &Config, rules: &SubstRules, state: &mut WrapState, line: &str) -> (out:
    Vec<String>)
    requires
        rules_wf(rules@),
        state_inv(old(state)@),
    ensures
        state_inv(final(state)@),
        final(state)@ == line_model(*cfg, rules@, old(state)@, line@).0,
        out@.map_values(|l: String| l@) == rendered_all(
            line_model(*cfg, rules@, old(state)@, line@).1,
            cfg.keep_trailing_whitespaces,
        ),
{
    let ghost s_in = old(state)@;
    let raw = str_chars(line);
    let mut completed: Vec<Vec<char>> = Vec::new();
    if cfg.rewrap && state.buffer.len() > 0 && is_new_paragraph(&raw) {
        let mut fresh = WrapState::new();
        core::mem::swap(state, &mut fresh);
        completed.push(fresh.buffer);
        assert(state@ =~~= initial_state());
    }
    let ghost s0 = state@;
    let ghost pre = lines_view(completed@);
    let subbed = apply_substitutions(rules, line);
    let subbed_chars = str_chars(subbed.as_str());
    if cfg.rewrap && state.buffer.len() > 0 {
        let trimmed = trim_start_chars(&subbed_chars);
        let mut input: Vec<char> = Vec::new();
        input.push(' ');
        let mut k: usize = 0;
        while k < trimmed.len()
            invariant
                k <= trimmed.len(),
                input@ == seq![' '] + trimmed@.take(k as int),
            decreases trimmed.len() - k,
        {
            input.push(trimmed[k]);
            assert(input@ =~= seq![' '] + trimmed@.take(k + 1 as int));
            k = k + 1;
        }
        assert(input@ =~= seq![' '] + spec_trim_start(subbed@));
        feed_chars(cfg, state, &input, &mut completed);
    } else {
        feed_chars(cfg, state, &subbed_chars, &mut completed);
    }
    if !cfg.rewrap {
        let mut fresh = WrapState::new();
        core::mem::swap(state, &mut fresh);
        completed.push(fresh.buffer);
        assert(state@ =~~= initial_state());
    }
    proof {
        let (s2, lines) = line_model(*cfg, rules@, s_in, line@);
        assert(state@ =~~= s2);
        assert(lines_view(completed@) =~~= lines);
    }
    let mut out: Vec<String> = Vec::new();
    let mut i: usize = 0;
    while i < completed.len()
        invariant
            i <= completed.len(),
            out@.len() == i,
            forall|j: int|
                0 <= j < i ==> (#[trigger] out@[j])@ == rendered(
                    completed@[j]@,
                    cfg.keep_trailing_whitespaces,
                ),
        decreases completed.len() - i,
    {
        let s = render_line(&completed[i], cfg.keep_trailing_whitespaces);
        out.push(s);
        i = i + 1;
    }
    assert(out@.map_values(|l: String| l@) =~~= rendered_all(
        lines_view(completed@),
        cfg.keep_trailing_whitespaces,
    ));
    out
}

/// The one flush after the last input line: when re-wrapping, the pending
/// buffer leaves as a final line.
pub fn finish(cfg: &Config, state: WrapState) -> (r: Option<String>)
    ensures
        cfg.rewrap ==> r is Some && r->0@ == rendered(state@.buffer, cfg.keep_trailing_whitespaces),
        !cfg.rewrap ==> r is None,
{
    if cfg.rewrap {
        Some(render_line(&state.buffer, cfg.keep_trailing_whitespaces))
    } else {
        None
    }
}

/// A whole input stream, line by line.
pub open spec fn stream_model(
    cfg: Config,
    rules: Seq<(Seq<char>, Seq<char>)>,
    s: StateModel,
    lines: Seq<Seq<char>>,
) -> (StateModel, Seq<Seq<char>>)
    decreases lines.len(),
{
    if lines.len() == 0 {
        (s, Seq::empty())
    } else {
        let (s1, out) = stream_model(cfg, rules, s, lines.drop_last());
        let (s2, more) = line_model(cfg, rules, s1, lines.last());
        (s2, out + more)
    }
}

/// Every output line of a whole run, rendered: the lines the input lines
/// complete and, when re-wrapping, the pending buffer flushed at the end.
pub open spec fn reflow_output(
    cfg: Config,
    rules: Seq<(Seq<char>, Seq<char>)>,
    lines: Seq<Seq<char>>,
) -> Seq<Seq<char>> {
    let (s, out) = stream_model(cfg, rules, initial_state(), lines);
    let all = if cfg.rewrap {
        out + seq![s.buffer]
    } else {
        out
    };
    rendered_all(all, cfg.keep_trailing_whitespaces)
}

pub open spec fn strings_view(v: Seq<String>) -> Seq<Seq<char>> {
    v.map_values(|s: String| s@)
}

/// A whole run: validate the substitutions, feed every input line through
/// the engine, and flush the final pending line when re-wrapping. `Err`
/// names the first pattern that does not compile; no output is produced
/// then.
pub fn reflow_lines(
    cfg: &Config,
    patterns: &Vec<String>,
    replacements: &Vec<String>,
    lines: &Vec<String>,
) -> (r: Result<Vec<String>, SubstError>)
    ensures
        (r is Ok) <==> (forall|i: int|
            0 <= i < patterns@.len() ==> regex_valid(#[trigger] patterns@[i]@)),
        r matches Ok(out) ==> strings_view(out@) == reflow_output(
            *cfg,
            padded_pairs(strings_view(patterns@), strings_view(replacements@)),
            strings_view(lines@),
        ),
        r matches Err(e) ==> e.index < patterns@.len() && !regex_valid(patterns@[e.index as int]@),
{
    let rules = match compile_substitutions(patterns, replacements) {
        Ok(rules) => rules,
        Err(e) => {
            return Err(e);
        },
    };
    assert(rules@ == padded_pairs(strings_view(patterns@), strings_view(replacements@)));
    let ghost rv = rules@;
    let ghost lviews = strings_view(lines@);
    let mut state = WrapState::new();
    let mut out: Vec<String> = Vec::new();
    assert(lviews.take(0) =~= Seq::<Seq<char>>::empty());
    let mut i: usize = 0;
    while i < lines.len()
        invariant
            i <= lines.len(),
            lviews == strings_view(lines@),
            rules_wf(rv),
            rv == rules@,
            state_inv(state@),
            state@ == stream_model(*cfg, rv, initial_state(), lviews.take(i as int)).0,
            strings_view(out@) == rendered_all(
                stream_model(*cfg, rv, initial_state(), lviews.take(i as int)).1,
                cfg.keep_trailing_whitespaces,
            ),
        decreases lines.len() - i,
    {
        let ghost pre_s = state@;
        let ghost pre_out = stream_model(*cfg, rv, initial_state(), lviews.take(i as int)).1;
        let ghost out_before = strings_view(out@);
        let mut more = process_line(cfg, &rules, &mut state, lines[i].as_str());
        let ghost more_view = strings_view(more@);
        out.append(&mut more);
        proof {
            assert(lviews.take(i + 1 as int).drop_last() =~= lviews.take(i as int));
            assert(lviews.take(i + 1 as int).last() == lines@[i as int]@);
            let a = pre_out;
            let b = line_model(*cfg, rv, pre_s, lines@[i as int]@).1;
            assert(strings_view(out@) =~~= out_before + more_view);
            assert(rendered_all(a + b, cfg.keep_trailing_whitespaces) =~~= rendered_all(
                a,
                cfg.keep_trailing_whitespaces,
            ) + rendered_all(b, cfg.keep_trailing_whitespaces));
        }
        i = i + 1;
    }
    proof {
        assert(lviews.take(lines@.len() as int) =~= lviews);
    }
    let ghost out_before_finish = strings_view(out@);
    let ghost s_end = state@;
    match finish(cfg, state) {
        Some(last) => {
            out.push(last);
            proof {
                let (s, body) = stream_model(*cfg, rv, initial_state(), lviews);
                assert(strings_view(out@) =~~= out_before_finish + seq![last@]);
                assert(rendered_all(body + seq![s.buffer], cfg.keep_trailing_whitespaces) =~~=
                rendered_all(body, cfg.keep_trailing_whitespaces) + seq![
                    rendered(s.buffer, cfg.keep_trailing_whitespaces),
                ]);
            }
        },
        None => {},
    }
    assert(strings_view(out@) =~~= reflow_output(*cfg, rv, lviews));
    Ok(out)
}

} // verus!
