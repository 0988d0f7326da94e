//! Rendering patterns as constructor syntax, e.g. `K(_, _)`: used to show
//! an example uncovered value in a diagnostic.

use vstd::prelude::*;
use vstd::std_specs::iter::IteratorSpec;

use crate::patterns::{Pattern, PatternV};

verus! {

/// The rendering of one pattern: `_` for a discard, the constructor name
/// for a constructor without fields, and the name followed by the
/// parenthesized, comma-separated renderings of the fields otherwise.
pub open spec fn render_pattern_v(p: PatternV) -> Seq<char>
    decreases p, 0int,
{
    match p {
        PatternV::Discard { .. } => seq!['_'],
        PatternV::Constructor { name, args } => if args.len() == 0 {
            name
        } else {
            name + seq!['('] + render_args_v(args, 0) + seq![')']
        },
    }
}

/// The comma-separated renderings of the arguments from `j` on.
pub open spec fn render_args_v(args: Seq<PatternV>, j: int) -> Seq<char>
    decreases args, 1int, args.len() - j,
{
    if j < 0 || j >= args.len() {
        Seq::empty()
    } else if j == args.len() - 1 {
        render_pattern_v(args[j])
    } else {
        render_pattern_v(args[j]) + seq![',', ' '] + render_args_v(args, j + 1)
    }
}

/// Append the characters of `s` to `out`.
fn push_chars(out: &mut Vec<char>, s: &String)
    ensures
        final(out)@ == old(out)@ + s@,
{
    broadcast use vstd::string::axiom_spec_iter;
    broadcast use vstd::string::next_postcondition;

    let mut it = s.as_str().chars();
    proof {
        assert(it.remaining() == s@);
        assert(out@ + it.remaining() =~= old(out)@ + s@);
    }
    loop
        invariant
            it.decrease() is Some,
            out@ + it.remaining() == old(out)@ + s@,
        ensures
            out@ == old(out)@ + s@,
        decreases it.decrease()->0,
    {
        let ghost rem_pre = it.remaining();
        let ghost out_pre = out@;
        match it.next() {
            Some(c) => {
                out.push(c);
                proof {
                    assert(it.remaining() == rem_pre.drop_first());
                    assert(out@ + it.remaining() =~= out_pre + rem_pre);
                }
            },
            None => {
                proof {
                    assert(rem_pre.len() == 0);
                    assert(out@ =~= out@ + rem_pre);
                    assert(out@ =~= old(out)@ + s@);
                }
                break;
            },
        }
    }
}

/// Render one pattern as constructor syntax.
pub fn render_pattern(p: &Pattern) -> (r: Vec<char>)
    ensures
        r@ == render_pattern_v(p@),
{
    let mut out: Vec<char> = Vec::new();
    render_pattern_into(p, &mut out);
    proof {
        assert(Seq::<char>::empty() + render_pattern_v(p@) =~= render_pattern_v(p@));
    }
    out
}

/// Append the rendering of one pattern to `out`.
fn render_pattern_into(p: &Pattern, out: &mut Vec<char>)
    ensures
        final(out)@ == old(out)@ + render_pattern_v(p@),
    decreases *p, 0int,
{
    match p {
        Pattern::Discard { .. } => {
            out.push('_');
            proof {
                assert(out@ =~= old(out)@ + seq!['_']);
            }
        },
        Pattern::Constructor { name, args } => {
            push_chars(out, name);
            if args.len() > 0 {
                out.push('(');
                proof {
                    crate::patterns::lemma_patterns_view(args@);
                    assert(out@ =~= old(out)@ + name@ + seq!['(']);
                }
                render_args_into(args, out);
                out.push(')');
                proof {
                    let argsv = crate::patterns::patterns_view(args@);
                    assert(out@ =~= old(out)@ + (name@ + seq!['('] + render_args_v(argsv, 0) + seq![')']));
                }
            } else {
                proof {
                    crate::patterns::lemma_patterns_view(args@);
                    assert(crate::patterns::patterns_view(args@).len() == 0);
                }
            }
        },
    }
}

/// Append the comma-separated renderings of the arguments to `out`.
fn render_args_into(args: &Vec<Pattern>, out: &mut Vec<char>)
    requires
        args@.len() > 0,
    ensures
        final(out)@ == old(out)@ + render_args_v(crate::patterns::patterns_view(args@), 0),
    decreases *args, 1int,
{
    let ghost argsv = crate::patterns::patterns_view(args@);
    proof {
        crate::patterns::lemma_patterns_view(args@);
    }
    let n = args.len();
    let mut i: usize = 0;
    while i < n
        invariant
            0 <= i <= n,
            n == args.len(),
            i < n || n > 0,
            argsv == crate::patterns::patterns_view(args@),
            argsv.len() == n,
            n > 0,
            out@ + render_args_v(argsv, i as int) == old(out)@ + render_args_v(argsv, 0),
            i < n,
        decreases n - i,
    {
        proof {
            crate::patterns::lemma_patterns_view(args@);
        }
        let ghost out_pre = out@;
        render_pattern_into(&args[i], out);
        if i + 1 < n {
            out.push(',');
            out.push(' ');
            proof {
                assert(out@ =~= out_pre + (render_pattern_v(argsv[i as int]) + seq![',', ' ']));
                assert(out_pre + (render_pattern_v(argsv[i as int]) + seq![',', ' ']) + render_args_v(argsv, i + 1)
                    =~= out_pre + render_args_v(argsv, i as int));
            }
        } else {
            proof {
                assert(out@ =~= out_pre + render_pattern_v(argsv[i as int]));
                assert(render_args_v(argsv, i as int) == render_pattern_v(argsv[i as int]));
            }
            return;
        }
        i = i + 1;
    }
}

} // verus!
