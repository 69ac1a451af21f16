//! Startup decisions: which file (if any) the command line names, and
//! which syntax hint a file name carries.

use vstd::prelude::*;

verus! {

/// Why the command line was rejected.
#[derive(Clone, Copy, PartialEq, Eq, Structural, Debug)]
pub enum ArgsError {
    /// More than one positional argument was given; the caller prints
    /// a usage message and exits with a non-zero status.
    TooMany,
}

/// A fresh copy of a text.
fn copy_chars(v: &Vec<char>) -> (r: Vec<char>)
    ensures
        r@ == v@,
{
    let mut r: Vec<char> = Vec::new();
    let mut i: usize = 0;
    while i < v.len()
        invariant
            i <= v.len(),
            r@ == v@.subrange(0, i as int),
        decreases v.len() - i,
    {
        r.push(v[i]);
        i = i + 1;
        proof {
            assert(r@ =~= v@.subrange(0, i as int));
        }
    }
    proof {
        assert(r@ =~= v@);
    }
    r
}

/// Which file to open: none for an empty command line (a new, unnamed
/// buffer), the single named file otherwise.  More than one argument
/// is rejected.
pub fn startup_path(args: &Vec<Vec<char>>) -> (r: Result<Option<Vec<char>>, ArgsError>)
    ensures
        r is Ok <==> args@.len() <= 1,
        args@.len() == 0 ==> r == Ok::<Option<Vec<char>>, ArgsError>(None),
        args@.len() == 1 ==> (match r {
            Ok(Some(p)) => p@ == args@[0]@,
            _ => false,
        }),
        args@.len() > 1 ==> r == Err::<Option<Vec<char>>, ArgsError>(ArgsError::TooMany),
{
    if args.len() == 0 {
        Ok(None)
    } else if args.len() == 1 {
        Ok(Some(copy_chars(&args[0])))
    } else {
        Err(ArgsError::TooMany)
    }
}

/// What follows the first dot of a file name, if it has one.
pub open spec fn after_first_dot(name: Seq<char>) -> Option<Seq<char>>
    decreases name.len(),
{
    if name.len() == 0 {
        None
    } else if name[0] == '.' {
        Some(name.skip(1))
    } else {
        after_first_dot(name.skip(1))
    }
}

proof fn lemma_after_first_dot_found(name: Seq<char>, i: int)
    requires
        0 <= i < name.len(),
        name[i] == '.',
        forall|j: int| 0 <= j < i ==> name[j] != '.',
    ensures
        after_first_dot(name) == Some(name.skip(i + 1)),
    decreases i,
{
    if i == 0 {
    } else {
        assert(name.skip(1)[i - 1] == name[i]);
        assert forall|j: int| 0 <= j < i - 1 implies name.skip(1)[j] != '.' by {
            assert(name.skip(1)[j] == name[j + 1]);
        }
        lemma_after_first_dot_found(name.skip(1), i - 1);
        assert(name.skip(1).skip(i) =~= name.skip(i + 1));
    }
}

proof fn lemma_after_first_dot_absent(name: Seq<char>)
    requires
        forall|j: int| 0 <= j < name.len() ==> name[j] != '.',
    ensures
        after_first_dot(name) is None,
    decreases name.len(),
{
    if name.len() > 0 {
        assert forall|j: int| 0 <= j < name.skip(1).len() implies name.skip(1)[j] != '.' by {
            assert(name.skip(1)[j] == name[j + 1]);
        }
        lemma_after_first_dot_absent(name.skip(1));
    }
}

/// The syntax hint a file name carries: everything after its first
/// dot, or `txt` for a name without one.
pub fn extension_hint(name: &Vec<char>) -> (r: Vec<char>)
    ensures
        match after_first_dot(name@) {
            Some(ext) => r@ == ext,
            None => r@ == seq!['t', 'x', 't'],
        },
{
    let n = name.len();
    let mut i: usize = 0;
    while i < n
        invariant
            i <= n,
            n == name@.len(),
            forall|j: int| 0 <= j < i ==> name@[j] != '.',
        decreases n - i,
    {
        if name[i] == '.' {
            proof {
                lemma_after_first_dot_found(name@, i as int);
            }
            let mut r: Vec<char> = Vec::new();
            let mut k: usize = i + 1;
            while k < n
                invariant
                    i < k <= n,
                    n == name@.len(),
                    r@ == name@.subrange(i + 1, k as int),
                decreases n - k,
            {
                r.push(name[k]);
                k = k + 1;
                proof {
                    assert(r@ =~= name@.subrange(i + 1, k as int));
                }
            }
            proof {
                assert(r@ =~= name@.skip(i + 1));
            }
            return r;
        }
        i = i + 1;
    }
    proof {
        lemma_after_first_dot_absent(name@);
    }
    let mut r: Vec<char> = Vec::new();
    r.push('t');
    r.push('x');
    r.push('t');
    proof {
        assert(r@ =~= seq!['t', 'x', 't']);
    }
    r
}

} // verus!
