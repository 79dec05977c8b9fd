//! Removing terminal control sequences from text that a user or a tool wrote.
use crate::text::{is_control_char, to_chars};
use vstd::prelude::*;

verus! {

/// Control characters that may not stand in a line of input.
pub open spec fn disallowed(c: char) -> bool {
    is_control_char(c) && c != '\n' && c != '\t'
}

pub fn is_disallowed_control_char(ch: char) -> (r: bool)
    ensures
        r == disallowed(ch),
{
    ch.is_control() && ch != '\n' && ch != '\t'
}

/// Whether `c` ends a control sequence that `ESC [` began.
pub open spec fn is_final_char(c: char) -> bool {
    '@' <= c <= '~'
}

/// What follows the control sequence whose parameters start at the head of `s`.
pub open spec fn after_sequence(s: Seq<char>) -> Seq<char>
    decreases s.len(),
{
    if s.len() == 0 {
        s
    } else if is_final_char(s[0]) {
        s.drop_first()
    } else {
        after_sequence(s.drop_first())
    }
}

pub proof fn lemma_after_sequence_shorter(s: Seq<char>)
    ensures
        after_sequence(s).len() <= s.len(),
    decreases s.len(),
{
    if s.len() > 0 {
        lemma_after_sequence_shorter(s.drop_first());
    }
}

/// The text without its escape sequences and without control characters other
/// than line feed and tab. `ESC [` starts a sequence that runs up to its final
/// character; any other ESC takes the one character behind it along.
pub open spec fn stripped(s: Seq<char>) -> Seq<char>
    decreases s.len(),
    via stripped_decreases
{
    if s.len() == 0 {
        s
    } else if s[0] == '\x1b' {
        if s.len() == 1 {
            Seq::empty()
        } else if s[1] == '[' {
            stripped(after_sequence(s.skip(2)))
        } else {
            stripped(s.skip(2))
        }
    } else if disallowed(s[0]) {
        stripped(s.drop_first())
    } else {
        seq![s[0]] + stripped(s.drop_first())
    }
}

#[via_fn]
proof fn stripped_decreases(s: Seq<char>) {
    if s.len() >= 2 {
        lemma_after_sequence_shorter(s.skip(2));
    }
}

pub fn strip_terminal_control_sequences(input: &str) -> (r: String)
    ensures
        r@ == stripped(input@),
{
    let v = to_chars(input);
    let mut out: String = String::new();
    let mut i: usize = 0;
    assert(v@.skip(0) =~= v@);
    assert(out@ + stripped(v@) =~= stripped(v@));
    while i < v.len()
        invariant
            i <= v@.len(),
            out@ + stripped(v@.skip(i as int)) == stripped(v@),
        decreases v@.len() - i,
    {
        let c = v[i];
        let ghost rest = v@.skip(i as int);
        assert(rest[0] == c);
        assert(rest.drop_first() =~= v@.skip(i + 1));
        if c == '\x1b' {
            if i + 1 >= v.len() {
                i = i + 1;
                assert(v@.skip(i as int) =~= Seq::empty());
                assert(stripped(rest) =~= stripped(v@.skip(i as int)));
            } else if v[i + 1] == '[' {
                assert(rest[1] == v@[i + 1]);
                i = i + 2;
                assert(rest.skip(2) =~= v@.skip(i as int));
                let ghost from = i as int;
                let mut open: bool = true;
                while open && i < v.len()
                    invariant
                        from <= i <= v@.len(),
                        after_sequence(v@.skip(from)) == if open {
                            after_sequence(v@.skip(i as int))
                        } else {
                            v@.skip(i as int)
                        },
                    decreases v@.len() - i + if open { 1int } else { 0int },
                {
                    let d = v[i];
                    assert(v@.skip(i as int).drop_first() =~= v@.skip(i + 1));
                    if '@' <= d && d <= '~' {
                        open = false;
                    }
                    i = i + 1;
                }
                assert(after_sequence(v@.skip(from)) == v@.skip(i as int));
            } else {
                assert(rest[1] == v@[i + 1]);
                i = i + 2;
                assert(rest.skip(2) =~= v@.skip(i as int));
            }
        } else if is_disallowed_control_char(c) {
            i = i + 1;
        } else {
            let ghost was = out@;
            out.push(c);
            i = i + 1;
            assert(was + (seq![c] + stripped(v@.skip(i as int))) =~= out@ + stripped(
                v@.skip(i as int),
            ));
        }
    }
    assert(v@.skip(v@.len() as int) =~= Seq::empty());
    assert(out@ + Seq::<char>::empty() =~= out@);
    out
}

/// A text that neither ESC nor a disallowed control character occurs in.
pub open spec fn clean(s: Seq<char>) -> bool {
    forall|i: int| 0 <= i < s.len() ==> !disallowed(#[trigger] s[i])
}

/// What stripping leaves holds no escape sequence and no control character
/// other than line feed and tab.
pub proof fn law_stripped_is_clean(s: Seq<char>)
    ensures
        clean(stripped(s)),
    decreases s.len(),
{
    if s.len() > 0 {
        if s[0] == '\x1b' {
            if s.len() > 1 {
                lemma_after_sequence_shorter(s.skip(2));
                law_stripped_is_clean(after_sequence(s.skip(2)));
                law_stripped_is_clean(s.skip(2));
            }
        } else {
            law_stripped_is_clean(s.drop_first());
        }
    }
}

/// A clean text is left as it is.
pub proof fn law_clean_text_is_kept(s: Seq<char>)
    requires
        clean(s),
    ensures
        stripped(s) == s,
    decreases s.len(),
{
    if s.len() > 0 {
        assert(!disallowed(s[0]));
        assert(clean(s.drop_first())) by {
            assert forall|i: int| 0 <= i < s.drop_first().len() implies !disallowed(
                #[trigger] s.drop_first()[i],
            ) by {
                assert(s.drop_first()[i] == s[i + 1]);
            }
        }
        law_clean_text_is_kept(s.drop_first());
        assert(seq![s[0]] + s.drop_first() =~= s);
    }
}

/// Stripping twice is stripping once.
pub proof fn law_strip_is_idempotent(s: Seq<char>)
    ensures
        stripped(stripped(s)) == stripped(s),
{
    law_stripped_is_clean(s);
    law_clean_text_is_kept(stripped(s));
}

/// A control sequence goes with its parameters and its final character, any other
/// escape with the one character behind it, and a control character alone; what
/// stands around them stays.
pub proof fn law_sequences_go_whole(
    a: Seq<char>,
    parameters: Seq<char>,
    end: char,
    c: char,
    b: Seq<char>,
)
    requires
        clean(a),
        forall|i: int| 0 <= i < parameters.len() ==> !is_final_char(#[trigger] parameters[i]),
        is_final_char(end),
        c != '[',
    ensures
        stripped(a + (seq!['\x1b', '['] + parameters + seq![end] + b)) == a + stripped(b),
        stripped(a + (seq!['\x1b', c] + b)) == a + stripped(b),
        stripped(a + (seq!['\r'] + b)) == a + stripped(b),
        stripped(a + (seq!['\n'] + b)) == a + (seq!['\n'] + stripped(b)),
        stripped(a + (seq!['\t'] + b)) == a + (seq!['\t'] + stripped(b)),
{
    let one = seq!['\x1b', '['] + parameters + seq![end] + b;
    assert(one.skip(2) =~= parameters + (seq![end] + b));
    lemma_after_parameters(parameters, end, b);
    assert(stripped(one) == stripped(b));
    lemma_stripped_behind(a, one);
    let other = seq!['\x1b', c] + b;
    assert(other.skip(2) =~= b);
    assert(stripped(other) == stripped(b));
    lemma_stripped_behind(a, other);
    let cr = seq!['\r'] + b;
    assert(cr.drop_first() =~= b);
    assert(disallowed('\r'));
    lemma_stripped_behind(a, cr);
    let lf = seq!['\n'] + b;
    assert(lf.drop_first() =~= b);
    lemma_stripped_behind(a, lf);
    let tab = seq!['\t'] + b;
    assert(tab.drop_first() =~= b);
    lemma_stripped_behind(a, tab);
}

proof fn lemma_after_parameters(parameters: Seq<char>, end: char, b: Seq<char>)
    requires
        forall|i: int| 0 <= i < parameters.len() ==> !is_final_char(#[trigger] parameters[i]),
        is_final_char(end),
    ensures
        after_sequence(parameters + (seq![end] + b)) == b,
    decreases parameters.len(),
{
    let s = parameters + (seq![end] + b);
    if parameters.len() == 0 {
        assert(s.drop_first() =~= b);
    } else {
        let rest = parameters.drop_first();
        assert forall|i: int| 0 <= i < rest.len() implies !is_final_char(#[trigger] rest[i]) by {
            assert(rest[i] == parameters[i + 1]);
        }
        assert(s[0] == parameters[0]);
        assert(s.drop_first() =~= rest + (seq![end] + b));
        lemma_after_parameters(rest, end, b);
    }
}

proof fn lemma_stripped_behind(a: Seq<char>, s: Seq<char>)
    requires
        clean(a),
    ensures
        stripped(a + s) == a + stripped(s),
    decreases a.len(),
{
    if a.len() == 0 {
        assert(a + s =~= s);
        assert(a + stripped(s) =~= stripped(s));
    } else {
        let rest = a.drop_first();
        assert forall|i: int| 0 <= i < rest.len() implies !disallowed(#[trigger] rest[i]) by {
            assert(rest[i] == a[i + 1]);
        }
        assert(!disallowed(a[0]));
        assert((a + s)[0] == a[0]);
        assert((a + s).drop_first() =~= rest + s);
        lemma_stripped_behind(rest, s);
        assert(seq![a[0]] + (rest + stripped(s)) =~= a + stripped(s));
    }
}

} // verus!
