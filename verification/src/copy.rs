//! Copy utilities: reusable helpers for game-facing text.
//!
//! A game's copy lives in its config as *data* — titles, prompts, verdicts,
//! and format strings. These helpers turn that data into display strings.

use vstd::prelude::*;

use crate::chars::{chars_of, push_all, string_from_chars};

verus! {

/// `template` with its `{}` placeholders filled left to right from `args`: a
/// placeholder with no argument left keeps its braces, and extra arguments are
/// ignored.
pub open spec fn filled(template: Seq<char>, args: Seq<Seq<char>>) -> Seq<char>
    decreases template.len(),
{
    if template.len() == 0 {
        Seq::empty()
    } else if template.len() >= 2 && template[0] == '{' && template[1] == '}' {
        if args.len() > 0 {
            args[0] + filled(template.skip(2), args.drop_first())
        } else {
            seq!['{', '}'] + filled(template.skip(2), args)
        }
    } else {
        seq![template[0]] + filled(template.drop_first(), args)
    }
}

/// Fill a copy template's `{}` placeholders left-to-right with `args`. A
/// template with more placeholders than args leaves the surplus braces in
/// place, and extra args are ignored — a mismatch degrades visibly rather
/// than panicking.
pub fn fill_placeholders(template: &str, args: &[String]) -> (s: String)
    ensures
        s@ == filled(template@, args@.map_values(|a: String| a@)),
{
    let t = chars_of(template);
    let ghost all = args@.map_values(|a: String| a@);
    let n = t.len();
    let mut out: Vec<char> = Vec::new();
    let mut i: usize = 0;
    let mut j: usize = 0;
    proof {
        assert(t@.skip(0) =~= template@);
        assert(all.skip(0) =~= all);
        assert(out@ + filled(template@, all) =~= filled(template@, all));
    }
    while i < n
        invariant
            t@ == template@,
            n == t@.len(),
            all == args@.map_values(|a: String| a@),
            i <= n,
            j <= args@.len(),
            filled(template@, all) == out@ + filled(t@.skip(i as int), all.skip(j as int)),
        decreases n - i,
    {
        let ghost rest = t@.skip(i as int);
        let ghost before = out@;
        if i + 1 < n && t[i] == '{' && t[i + 1] == '}' {
            proof {
                assert(rest[0] == '{' && rest[1] == '}');
                assert(rest.skip(2) =~= t@.skip(i + 2));
            }
            if j < args.len() {
                let a = chars_of(args[j].as_str());
                push_all(&mut out, &a);
                proof {
                    assert(all.skip(j as int)[0] == a@);
                    assert(all.skip(j as int).drop_first() =~= all.skip(j + 1));
                    assert(before + (a@ + filled(t@.skip(i + 2), all.skip(j + 1))) =~= out@ + filled(
                        t@.skip(i + 2),
                        all.skip(j + 1),
                    ));
                }
                j += 1;
            } else {
                out.push('{');
                out.push('}');
                proof {
                    assert(before + (seq!['{', '}'] + filled(t@.skip(i + 2), all.skip(j as int)))
                        =~= out@ + filled(t@.skip(i + 2), all.skip(j as int)));
                }
            }
            i += 2;
        } else {
            out.push(t[i]);
            proof {
                assert(rest[0] == t@[i as int]);
                assert(rest.drop_first() =~= t@.skip(i + 1));
                assert(before + (seq![t@[i as int]] + filled(t@.skip(i + 1), all.skip(j as int)))
                    =~= out@ + filled(t@.skip(i + 1), all.skip(j as int)));
            }
            i += 1;
        }
    }
    proof {
        assert(t@.skip(n as int) =~= Seq::<char>::empty());
        assert(out@ + Seq::<char>::empty() =~= out@);
    }
    string_from_chars(&out)
}

} // verus!
