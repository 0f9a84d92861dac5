//! What the command line of the client needs decided: how an environment variable is
//! written.

use vstd::prelude::*;

verus! {

/// How often a character occurs in a text.
pub open spec fn occurrences(text: Seq<char>, wanted: char) -> nat
    decreases text.len(),
{
    if text.len() == 0 {
        0
    } else if text.last() == wanted {
        occurrences(text.drop_last(), wanted) + 1
    } else {
        occurrences(text.drop_last(), wanted)
    }
}

/// Reads an environment variable written as `VAR=VAL`: the text must hold exactly
/// one `=`, which parts the name from the value. Either part may be empty.
pub fn var_eq_val(s: &str) -> (parsed: Result<(String, String), String>)
    ensures
        parsed is Ok <==> occurrences(s@, '=') == 1,
        parsed matches Ok((var, val)) ==> {
            &&& s@ == var@ + seq!['='] + val@
            &&& !var@.contains('=')
            &&& !val@.contains('=')
        },
        parsed matches Err(message) ==> message@ == "Required format is VAR=VAL"@,
{
    let n = s.unicode_len();
    let mut first: usize = n;
    let mut count: usize = 0;
    let mut i: usize = 0;
    assert(s@.take(0) =~= Seq::<char>::empty());
    while i < n
        invariant
            0 <= i <= n,
            n == s@.len(),
            count <= i,
            count == occurrences(s@.take(i as int), '='),
            count == 0 ==> first == n && forall|k: int| 0 <= k < i ==> s@[k] != '=',
            count >= 1 ==> first < i && s@[first as int] == '=',
            count == 1 ==> forall|k: int| 0 <= k < i && k != first ==> s@[k] != '=',
        decreases n - i,
    {
        let c = s.get_char(i);
        assert(s@.take(i + 1).drop_last() =~= s@.take(i as int));
        assert(s@.take(i + 1).last() == s@[i as int]);
        if c == '=' {
            if count == 0 {
                first = i;
            }
            count += 1;
        }
        i += 1;
    }
    assert(s@.take(n as int) =~= s@);
    if count != 1 {
        Err("Required format is VAR=VAL".to_owned())
    } else {
        let var = s.substring_char(0, first).to_owned();
        let val = s.substring_char(first + 1, n).to_owned();
        proof {
            assert(s@ =~= var@ + seq!['='] + val@);
            assert(!var@.contains('=')) by {
                if var@.contains('=') {
                    let k = choose|k: int| 0 <= k < var@.len() && var@[k] == '=';
                    assert(s@[k] == '=');
                }
            }
            assert(!val@.contains('=')) by {
                if val@.contains('=') {
                    let k = choose|k: int| 0 <= k < val@.len() && val@[k] == '=';
                    assert(s@[first + 1 + k] == '=');
                }
            }
        }
        Ok((var, val))
    }
}

} // verus!
