use vstd::prelude::*;

use crate::chars::{char_is_whitespace, is_list_start, is_list_start_char, is_whitespace_char};
use crate::config::Config;

verus! {

/// The wrap engine's state, as the contracts speak of it: the line being
/// assembled, the position just past the most recent whitespace character
/// (the preferred split point), whether a non-whitespace character has been
/// seen since the last paragraph started, and the captured list indentation
/// together with a flag telling whether its padding region is still growing.
#[verifier::ext_equal]
pub ghost struct StateModel {
    pub buffer: Seq<char>,
    pub boundary: Option<int>,
    pub has_word: bool,
    pub indent: Option<Seq<char>>,
    pub padding_open: bool,
}

pub open spec fn initial_state() -> StateModel {
    StateModel {
        buffer: Seq::empty(),
        boundary: None,
        has_word: false,
        indent: None,
        padding_open: false,
    }
}

/// The recorded split point always lies inside the buffer and names a
/// whitespace character: the character that was appended right after it was
/// recorded.
pub open spec fn state_inv(s: StateModel) -> bool {
    s.boundary matches Some(b) ==> 0 <= b < s.buffer.len() && is_whitespace_char(s.buffer[b])
}

/// The bookkeeping every character receives once overflow is resolved:
/// recognize a bullet marker, record a word boundary or note a word, append
/// the character, and extend or close the captured list indentation.
pub open spec fn append_char(cfg: Config, s: StateModel, c: char) -> StateModel {
    let ws = is_whitespace_char(c);
    let bullet = cfg.preserve_list_indentation && !s.has_word && s.indent is None
        && is_list_start_char(c);
    let indent0 = if bullet {
        Some(s.buffer.push(' '))
    } else {
        s.indent
    };
    let open0 = if bullet {
        true
    } else {
        s.padding_open
    };
    let extend = indent0 is Some && !bullet && open0;
    StateModel {
        buffer: s.buffer.push(c),
        boundary: if ws {
            Some(s.buffer.len() as int)
        } else {
            s.boundary
        },
        has_word: if ws {
            s.has_word
        } else {
            true
        },
        indent: if extend && ws {
            Some(indent0->0.push(c))
        } else {
            indent0
        },
        padding_open: if extend && !ws {
            false
        } else {
            open0
        },
    }
}

/// One step of the wrap machine on one character. When the buffer has
/// reached the width limit, the overflow is resolved first: flush the whole
/// buffer if words may be broken or the character is whitespace (the
/// whitespace itself is consumed), else flush up to and including the last
/// recorded word boundary, else let the buffer run past the limit. A flushed
/// buffer restarts from the captured list indentation, if any.
pub open spec fn step(cfg: Config, s: StateModel, c: char) -> (StateModel, Option<Seq<char>>) {
    let ws = is_whitespace_char(c);
    let continuation: Seq<char> = match s.indent {
        Some(ind) => ind,
        None => Seq::empty(),
    };
    if cfg.max_line_length > 0 && s.buffer.len() >= cfg.max_line_length {
        if cfg.break_words || ws {
            let s1 = StateModel { buffer: continuation, boundary: None, ..s };
            if ws {
                (s1, Some(s.buffer))
            } else {
                (append_char(cfg, s1, c), Some(s.buffer))
            }
        } else if s.boundary is Some {
            let b = s.boundary->0;
            let emitted = s.buffer.take(b + 1);
            let rest = s.buffer.skip(b + 1);
            let s1 = StateModel { buffer: continuation + rest, boundary: None, ..s };
            (append_char(cfg, s1, c), Some(emitted))
        } else {
            (append_char(cfg, s, c), None)
        }
    } else {
        (append_char(cfg, s, c), None)
    }
}

pub open spec fn opt_line(e: Option<Seq<char>>) -> Seq<Seq<char>> {
    match e {
        Some(l) => seq![l],
        None => Seq::empty(),
    }
}

/// Runs the machine over a whole sequence of characters, gathering the
/// completed lines in order.
pub open spec fn feed(cfg: Config, s: StateModel, cs: Seq<char>) -> (StateModel, Seq<Seq<char>>)
    decreases cs.len(),
{
    if cs.len() == 0 {
        (s, Seq::empty())
    } else {
        let (s1, lines) = feed(cfg, s, cs.drop_last());
        let (s2, e) = step(cfg, s1, cs.last());
        (s2, lines + opt_line(e))
    }
}

pub proof fn lemma_append_char_inv(cfg: Config, s: StateModel, c: char)
    requires
        state_inv(s),
    ensures
        state_inv(append_char(cfg, s, c)),
{
}

pub proof fn lemma_step_inv(cfg: Config, s: StateModel, c: char)
    requires
        state_inv(s),
    ensures
        state_inv(step(cfg, s, c).0),
{
}

/// The executable counterpart of `StateModel`.
pub struct WrapState {
    pub buffer: Vec<char>,
    pub boundary: Option<usize>,
    pub has_word: bool,
    pub indent: Option<Vec<char>>,
    pub padding_open: bool,
}

impl View for WrapState {
    type V = StateModel;

    open spec fn view(&self) -> StateModel {
        StateModel {
            buffer: self.buffer@,
            boundary: match self.boundary {
                Some(b) => Some(b as int),
                None => None,
            },
            has_word: self.has_word,
            indent: match self.indent {
                Some(ref v) => Some(v@),
                None => None,
            },
            padding_open: self.padding_open,
        }
    }
}

impl WrapState {
    pub fn new() -> (r: WrapState)
        ensures
            r@ == initial_state(),
            state_inv(r@),
    {
        let r = WrapState {
            buffer: Vec::new(),
            boundary: None,
            has_word: false,
            indent: None,
            padding_open: false,
        };
        assert(r@ =~~= initial_state());
        r
    }
}

fn copy_chars(v: &Vec<char>) -> (r: Vec<char>)
    ensures
        r@ == v@,
{
    let mut r: Vec<char> = Vec::new();
    let mut i: usize = 0;
    while i < v.len()
        invariant
            i <= v.len(),
            r@ == v@.take(i as int),
        decreases v.len() - i,
    {
        r.push(v[i]);
        assert(r@ =~= v@.take(i + 1 as int));
        i = i + 1;
    }
    assert(r@ =~= v@);
    r
}

/// Applies `append_char` to the live state.
fn push_char(cfg: &Config, state: &mut WrapState, c: char)
    requires
        state_inv(old(state)@),
    ensures
        final(state)@ == append_char(*cfg, old(state)@, c),
        state_inv(final(state)@),
{
    proof {
        lemma_append_char_inv(*cfg, old(state)@, c);
    }
    let ws = char_is_whitespace(c);
    let bullet = cfg.preserve_list_indentation && !state.has_word && state.indent.is_none()
        && is_list_start(c);
    if bullet {
        let mut ind = copy_chars(&state.buffer);
        ind.push(' ');
        state.indent = Some(ind);
        state.padding_open = true;
    }
    if ws {
        state.boundary = Some(state.buffer.len());
    } else {
        state.has_word = true;
    }
    state.buffer.push(c);
    if !bullet && state.padding_open && state.indent.is_some() {
        if ws {
            let mut ind = match &state.indent {
                Some(v) => copy_chars(v),
                None => Vec::new(),
            };
            ind.push(c);
            state.indent = Some(ind);
        } else {
            state.padding_open = false;
        }
    }
    assert(final(state)@ =~~= append_char(*cfg, old(state)@, c));
}

pub open spec fn lines_view(out: Seq<Vec<char>>) -> Seq<Seq<char>> {
    out.map_values(|v: Vec<char>| v@)
}

/// Applies `step` to the live state, pushing the completed line, if one was
/// emitted, onto `out`.
pub fn wrap_step(cfg: &Config, state: &mut WrapState, c: char, out: &mut Vec<Vec<char>>)
    requires
        state_inv(old(state)@),
    ensures
        state_inv(final(state)@),
        final(state)@ == step(*cfg, old(state)@, c).0,
        lines_view(final(out)@) == lines_view(old(out)@) + opt_line(step(*cfg, old(state)@, c).1),
{
    proof {
        lemma_step_inv(*cfg, old(state)@, c);
    }
    let ws = char_is_whitespace(c);
    let overflow = cfg.max_line_length > 0 && state.buffer.len() >= cfg.max_line_length;
    if overflow && (cfg.break_words || ws) {
        let mut cont = match &state.indent {
            Some(ind) => copy_chars(ind),
            None => Vec::new(),
        };
        core::mem::swap(&mut state.buffer, &mut cont);
        out.push(cont);
        state.boundary = None;
        if !ws {
            push_char(cfg, state, c);
        }
        assert(final(state)@ =~~= step(*cfg, old(state)@, c).0);
        assert(lines_view(final(out)@) =~~= lines_view(old(out)@) + opt_line(
            step(*cfg, old(state)@, c).1,
        ));
    } else if overflow && state.boundary.is_some() {
        let b = match state.boundary {
            Some(b) => b,
            None => 0,
        };
        let rest = state.buffer.split_off(b + 1);
        let mut cont = match &state.indent {
            Some(ind) => copy_chars(ind),
            None => Vec::new(),
        };
        let ghost cont0 = cont@;
        let mut i: usize = 0;
        while i < rest.len()
            invariant
                i <= rest.len(),
                cont@ == cont0 + rest@.take(i as int),
            decreases rest.len() - i,
        {
            cont.push(rest[i]);
            assert(cont@ =~= cont0 + rest@.take(i + 1 as int));
            i = i + 1;
        }
        assert(rest@.take(rest@.len() as int) =~= rest@);
        core::mem::swap(&mut state.buffer, &mut cont);
        out.push(cont);
        state.boundary = None;
        push_char(cfg, state, c);
        assert(final(state)@ =~~= step(*cfg, old(state)@, c).0);
        assert(lines_view(final(out)@) =~~= lines_view(old(out)@) + opt_line(
            step(*cfg, old(state)@, c).1,
        ));
    } else {
        push_char(cfg, state, c);
        assert(final(state)@ =~~= step(*cfg, old(state)@, c).0);
        assert(lines_view(final(out)@) =~~= lines_view(old(out)@) + opt_line(
            step(*cfg, old(state)@, c).1,
        ));
    }
}

/// Runs the machine over every character of `cs` in order.
pub fn feed_chars(cfg: &Config, state: &mut WrapState, cs: &Vec<char>, out: &mut Vec<Vec<char>>)
    requires
        state_inv(old(state)@),
    ensures
        state_inv(final(state)@),
        final(state)@ == feed(*cfg, old(state)@, cs@).0,
        lines_view(final(out)@) == lines_view(old(out)@) + feed(*cfg, old(state)@, cs@).1,
{
    let ghost s0 = old(state)@;
    let ghost out0 = lines_view(old(out)@);
    let mut i: usize = 0;
    while i < cs.len()
        invariant
            i <= cs.len(),
            state_inv(state@),
            state@ == feed(*cfg, s0, cs@.take(i as int)).0,
            lines_view(out@) == out0 + feed(*cfg, s0, cs@.take(i as int)).1,
        decreases cs.len() - i,
    {
        let ghost a = feed(*cfg, s0, cs@.take(i as int)).1;
        let ghost b = opt_line(step(*cfg, feed(*cfg, s0, cs@.take(i as int)).0, cs@[i as int]).1);
        wrap_step(cfg, state, cs[i], out);
        proof {
            assert(cs@.take(i + 1 as int).drop_last() =~= cs@.take(i as int));
            assert(cs@.take(i + 1 as int).last() == cs@[i as int]);
            assert(out0 + a + b =~~= out0 + (a + b));
        }
        i = i + 1;
    }
    proof {
        assert(cs@.take(cs@.len() as int) =~= cs@);
    }
}

} // verus!
