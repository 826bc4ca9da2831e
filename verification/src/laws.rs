use vstd::prelude::*;

use crate::chars::is_whitespace_char;
use crate::config::Config;
use crate::pipeline::{
    line_model, reflow_output, rendered_all, spec_trim_end, stream_model,
};
use crate::wrap::{feed, initial_state, state_inv, step, StateModel};

verus! {

proof fn lemma_feed_no_limit(cfg: Config, s: StateModel, cs: Seq<char>)
    requires
        cfg.max_line_length == 0,
    ensures
        feed(cfg, s, cs).1 == Seq::<Seq<char>>::empty(),
        feed(cfg, s, cs).0.buffer == s.buffer + cs,
    decreases cs.len(),
{
    if cs.len() == 0 {
        assert(s.buffer + cs =~= s.buffer);
    } else {
        lemma_feed_no_limit(cfg, s, cs.drop_last());
        assert((s.buffer + cs.drop_last()).push(cs.last()) =~= s.buffer + cs);
        assert(feed(cfg, s, cs).1 =~= Seq::<Seq<char>>::empty());
    }
}

proof fn lemma_stream_noop(cfg: Config, lines: Seq<Seq<char>>)
    requires
        cfg.max_line_length == 0,
        !cfg.rewrap,
    ensures
        stream_model(cfg, Seq::empty(), initial_state(), lines).0 == initial_state(),
        stream_model(cfg, Seq::empty(), initial_state(), lines).1 == lines,
    decreases lines.len(),
{
    if lines.len() == 0 {
        assert(stream_model(cfg, Seq::empty(), initial_state(), lines).1 =~= lines);
    } else {
        lemma_stream_noop(cfg, lines.drop_last());
        let raw = lines.last();
        lemma_feed_no_limit(cfg, initial_state(), raw);
        assert(initial_state().buffer + raw =~= raw);
        assert(line_model(cfg, Seq::empty(), initial_state(), raw).1 =~= seq![raw]);
        assert(lines.drop_last() + seq![raw] =~= lines);
    }
}

/// With no width limit, no re-wrapping, trailing whitespace kept and no
/// substitutions, the output equals the input, line for line.
pub proof fn lemma_noop_config_identity(cfg: Config, lines: Seq<Seq<char>>)
    requires
        cfg.max_line_length == 0,
        !cfg.rewrap,
        cfg.keep_trailing_whitespaces,
    ensures
        reflow_output(cfg, Seq::empty(), lines) == lines,
{
    lemma_stream_noop(cfg, lines);
    assert(rendered_all(lines, true) =~= lines);
}

proof fn lemma_step_width(cfg: Config, s: StateModel, c: char)
    requires
        cfg.max_line_length > 0,
        cfg.break_words,
        !cfg.preserve_list_indentation,
        s.buffer.len() <= cfg.max_line_length,
        s.indent is None,
    ensures
        step(cfg, s, c).0.buffer.len() <= cfg.max_line_length,
        step(cfg, s, c).0.indent is None,
        step(cfg, s, c).1 matches Some(l) ==> l.len() <= cfg.max_line_length,
{
}

proof fn lemma_feed_width(cfg: Config, s: StateModel, cs: Seq<char>)
    requires
        cfg.max_line_length > 0,
        cfg.break_words,
        !cfg.preserve_list_indentation,
        s.buffer.len() <= cfg.max_line_length,
        s.indent is None,
    ensures
        feed(cfg, s, cs).0.buffer.len() <= cfg.max_line_length,
        feed(cfg, s, cs).0.indent is None,
        forall|i: int|
            0 <= i < feed(cfg, s, cs).1.len() ==> #[trigger] feed(cfg, s, cs).1[i].len()
                <= cfg.max_line_length,
    decreases cs.len(),
{
    if cs.len() > 0 {
        lemma_feed_width(cfg, s, cs.drop_last());
        lemma_step_width(cfg, feed(cfg, s, cs.drop_last()).0, cs.last());
    }
}

proof fn lemma_line_width(cfg: Config, rules: Seq<(Seq<char>, Seq<char>)>, s: StateModel, raw: Seq<
    char,
>)
    requires
        cfg.max_line_length > 0,
        cfg.break_words,
        !cfg.preserve_list_indentation,
        s.buffer.len() <= cfg.max_line_length,
        s.indent is None,
    ensures
        line_model(cfg, rules, s, raw).0.buffer.len() <= cfg.max_line_length,
        line_model(cfg, rules, s, raw).0.indent is None,
        forall|i: int|
            0 <= i < line_model(cfg, rules, s, raw).1.len() ==> #[trigger] line_model(
                cfg,
                rules,
                s,
                raw,
            ).1[i].len() <= cfg.max_line_length,
{
    let flush = cfg.rewrap && s.buffer.len() > 0 && crate::pipeline::spec_is_new_paragraph(raw);
    let s0 = if flush {
        initial_state()
    } else {
        s
    };
    let subbed = crate::subst::applied(rules, raw);
    let input = if cfg.rewrap && s0.buffer.len() > 0 {
        seq![' '] + crate::pipeline::spec_trim_start(subbed)
    } else {
        subbed
    };
    lemma_feed_width(cfg, s0, input);
}

proof fn lemma_stream_width(cfg: Config, rules: Seq<(Seq<char>, Seq<char>)>, lines: Seq<Seq<char>>)
    requires
        cfg.max_line_length > 0,
        cfg.break_words,
        !cfg.preserve_list_indentation,
    ensures
        stream_model(cfg, rules, initial_state(), lines).0.buffer.len() <= cfg.max_line_length,
        stream_model(cfg, rules, initial_state(), lines).0.indent is None,
        forall|i: int|
            0 <= i < stream_model(cfg, rules, initial_state(), lines).1.len() ==> #[trigger] stream_model(
                cfg,
                rules,
                initial_state(),
                lines,
            ).1[i].len() <= cfg.max_line_length,
    decreases lines.len(),
{
    if lines.len() > 0 {
        lemma_stream_width(cfg, rules, lines.drop_last());
        lemma_line_width(
            cfg,
            rules,
            stream_model(cfg, rules, initial_state(), lines.drop_last()).0,
            lines.last(),
        );
    }
}

proof fn lemma_trim_end_shorter(l: Seq<char>)
    ensures
        spec_trim_end(l).len() <= l.len(),
    decreases l.len(),
{
    if l.len() > 0 && is_whitespace_char(l.last()) {
        lemma_trim_end_shorter(l.drop_last());
    }
}

/// With a positive width limit, word breaking on, and list indentation
/// off, every output line is at most the limit long — whatever the
/// substitutions, the input, and the remaining options.
pub proof fn lemma_width_bound(cfg: Config, rules: Seq<(Seq<char>, Seq<char>)>, lines: Seq<
    Seq<char>,
>)
    requires
        cfg.max_line_length > 0,
        cfg.break_words,
        !cfg.preserve_list_indentation,
    ensures
        forall|i: int|
            0 <= i < reflow_output(cfg, rules, lines).len() ==> #[trigger] reflow_output(
                cfg,
                rules,
                lines,
            )[i].len() <= cfg.max_line_length,
{
    lemma_stream_width(cfg, rules, lines);
    let (s, out) = stream_model(cfg, rules, initial_state(), lines);
    let all = if cfg.rewrap {
        out + seq![s.buffer]
    } else {
        out
    };
    assert forall|i: int| 0 <= i < all.len() implies all[i].len() <= cfg.max_line_length by {
        if i < out.len() {
            assert(out[i].len() <= cfg.max_line_length);
        }
    }
    assert forall|i: int|
        0 <= i < reflow_output(cfg, rules, lines).len() implies #[trigger] reflow_output(
        cfg,
        rules,
        lines,
    )[i].len() <= cfg.max_line_length by {
        lemma_trim_end_shorter(all[i]);
    }
}

/// When words are kept whole, a wrap can only part the text at a word
/// boundary: a line the machine emits while scanning a character either
/// ends with a whitespace character, or the scanned character is itself
/// whitespace and the wrap consumes it. When the buffer holds no boundary
/// at all and the character is not whitespace, nothing is emitted and the
/// overlong word keeps growing — an unbroken run longer than the limit is
/// never cut.
pub proof fn lemma_word_preservation(cfg: Config, s: StateModel, c: char)
    requires
        !cfg.break_words,
        state_inv(s),
    ensures
        step(cfg, s, c).1 matches Some(l) ==> (is_whitespace_char(c) || (l.len() > 0
            && is_whitespace_char(l.last()))),
        s.boundary is None && !is_whitespace_char(c) ==> step(cfg, s, c).1 is None && step(
            cfg,
            s,
            c,
        ).0.buffer == s.buffer.push(c),
{
    if s.boundary is Some {
        let b = s.boundary->0;
        assert(s.buffer.take(b + 1).len() == b + 1);
        assert(s.buffer.take(b + 1).last() == s.buffer[b]);
    }
}

proof fn lemma_trim_end_no_trailing(l: Seq<char>)
    ensures
        spec_trim_end(l).len() == 0 || !is_whitespace_char(spec_trim_end(l).last()),
    decreases l.len(),
{
    if l.len() > 0 && is_whitespace_char(l.last()) {
        lemma_trim_end_no_trailing(l.drop_last());
    }
}

/// When words are kept whole and the buffer holds no word boundary, a run
/// of non-whitespace characters only grows the buffer: nothing is emitted,
/// however far past the limit the run reaches.
pub proof fn lemma_unbroken_word_never_cut(cfg: Config, s: StateModel, cs: Seq<char>)
    requires
        !cfg.break_words,
        s.boundary is None,
        forall|i: int| 0 <= i < cs.len() ==> !is_whitespace_char(#[trigger] cs[i]),
    ensures
        feed(cfg, s, cs).1 == Seq::<Seq<char>>::empty(),
        feed(cfg, s, cs).0.buffer == s.buffer + cs,
        feed(cfg, s, cs).0.boundary is None,
    decreases cs.len(),
{
    if cs.len() == 0 {
        assert(s.buffer + cs =~= s.buffer);
    } else {
        lemma_unbroken_word_never_cut(cfg, s, cs.drop_last());
        assert((s.buffer + cs.drop_last()).push(cs.last()) =~= s.buffer + cs);
        assert(feed(cfg, s, cs).1 =~= Seq::<Seq<char>>::empty());
    }
}

/// With `keep_trailing_whitespaces` off, no output line ends with
/// whitespace.
pub proof fn lemma_no_trailing_whitespace(cfg: Config, rules: Seq<(Seq<char>, Seq<char>)>, lines:
    Seq<Seq<char>>)
    requires
        !cfg.keep_trailing_whitespaces,
    ensures
        forall|i: int|
            0 <= i < reflow_output(cfg, rules, lines).len() ==> (#[trigger] reflow_output(
                cfg,
                rules,
                lines,
            )[i].len() == 0 || !is_whitespace_char(reflow_output(cfg, rules, lines)[i].last())),
{
    let (s, out) = stream_model(cfg, rules, initial_state(), lines);
    let all = if cfg.rewrap {
        out + seq![s.buffer]
    } else {
        out
    };
    assert forall|i: int|
        0 <= i < reflow_output(cfg, rules, lines).len() implies (#[trigger] reflow_output(
        cfg,
        rules,
        lines,
    )[i].len() == 0 || !is_whitespace_char(reflow_output(cfg, rules, lines)[i].last())) by {
        lemma_trim_end_no_trailing(all[i]);
    }
}

/// With `keep_trailing_whitespaces` on, the completed lines leave exactly
/// as the engine assembled them.
pub proof fn lemma_keep_trailing_exact(all: Seq<Seq<char>>)
    ensures
        rendered_all(all, true) == all,
{
    assert(rendered_all(all, true) =~= all);
}

} // verus!
