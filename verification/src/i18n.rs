//! Positional interpolation of translated labels.

use vstd::prelude::*;

use crate::text::{chars_of, push_char, push_str};

verus! {

/// `template` with its `{}` placeholders, taken left to right, replaced by
/// the arguments in order; placeholders past the last argument stay, and
/// arguments past the last placeholder are dropped.
pub open spec fn filled(template: Seq<char>, args: Seq<Seq<char>>) -> Seq<char>
    decreases template.len(),
{
    if args.len() == 0 || template.len() < 2 {
        template
    } else if template[0] == '{' && template[1] == '}' {
        args[0] + filled(template.skip(2), args.drop_first())
    } else {
        seq![template[0]] + filled(template.drop_first(), args)
    }
}

/// The texts of a list of strings.
pub open spec fn texts(args: Seq<String>) -> Seq<Seq<char>> {
    args.map_values(|s: String| s@)
}

/// Fills the `{}` placeholders of a translated label with `args`.
pub fn fill_placeholders(template: &str, args: &[String]) -> (r: String)
    ensures
        r@ == filled(template@, texts(args@)),
{
    let cs = chars_of(template);
    let ghost t = cs@;
    let ghost a = texts(args@);
    let mut out = String::new();
    let mut i: usize = 0;
    let mut ai: usize = 0;
    assert(t.skip(0) =~= t);
    assert(a.skip(0) =~= a);
    assert(out@ + filled(t, a) =~= filled(t, a));
    while i < cs.len()
        invariant
            t == cs@,
            t == template@,
            a == texts(args@),
            i <= t.len(),
            ai <= a.len(),
            a.len() == args@.len(),
            out@ + filled(t.skip(i as int), a.skip(ai as int)) == filled(t, a),
        decreases t.len() - i,
    {
        let ghost rest = t.skip(i as int);
        let ghost more = a.skip(ai as int);
        if ai < args.len() && i + 1 < cs.len() && cs[i] == '{' && cs[i + 1] == '}' {
            assert(rest[0] == '{' && rest[1] == '}');
            assert(rest.skip(2) =~= t.skip(i + 2));
            assert(more.drop_first() =~= a.skip(ai + 1));
            assert(more[0] == args@[ai as int]@);
            let ghost before = out@;
            push_str(&mut out, args[ai].as_str());
            assert(out@ + filled(t.skip(i + 2), a.skip(ai + 1)) =~= before + filled(rest, more));
            ai = ai + 1;
            i = i + 2;
        } else {
            assert(rest.drop_first() =~= t.skip(i + 1));
            let ghost before = out@;
            push_char(&mut out, cs[i]);
            proof {
                if more.len() == 0 || rest.len() < 2 {
                    assert(filled(rest, more) == rest);
                    if more.len() == 0 {
                        assert(filled(t.skip(i + 1), more) == t.skip(i + 1));
                    } else {
                        assert(t.skip(i + 1).len() < 2);
                        assert(filled(t.skip(i + 1), more) == t.skip(i + 1));
                    }
                    assert(rest =~= seq![t[i as int]] + t.skip(i + 1));
                }
            }
            assert(out@ + filled(t.skip(i + 1), more) =~= before + filled(rest, more));
            i = i + 1;
        }
    }
    assert(t.skip(i as int).len() == 0);
    assert(out@ + filled(t.skip(i as int), a.skip(ai as int)) =~= out@);
    out
}

} // verus!
