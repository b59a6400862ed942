use vstd::prelude::*;
use vstd::utf8::encode_utf8;

verus! {

/// Whether a command-line argument names option `param` (its UTF-8 bytes):
/// the bare word, the word after `--`, or its first letter after `-`.
pub open spec fn arg_names(arg: Seq<u8>, param: Seq<u8>) -> bool {
    arg == param || arg == seq![45u8, 45u8] + param || arg == seq![45u8, param[0]]
}

/// The command-line arguments of the program.
pub struct Params {
    args: Vec<String>,
    has_valid_args: bool,
}

impl Params {
    pub closed spec fn spec_args(&self) -> Seq<String> {
        self.args@
    }

    pub closed spec fn spec_has_valid_args(&self) -> bool {
        self.has_valid_args
    }

    pub fn new(args: Vec<String>) -> (r: Params)
        ensures
            r.spec_args() == args@,
            !r.spec_has_valid_args(),
    {
        Params { args, has_valid_args: false }
    }

    /// Whether any argument has been recognised.
    pub fn has_valid_args(&self) -> (r: bool)
        ensures
            r == self.spec_has_valid_args(),
    {
        self.has_valid_args
    }

    /// Whether an argument names option `param` (see `arg_names`). An option
    /// that is empty or starts with a character of more than one byte is
    /// never named.
    pub fn has_param(&mut self, param: String) -> (r: bool)
        ensures
            final(self).spec_args() == old(self).spec_args(),
            r == {
                let p = encode_utf8(param@);
                p.len() > 0 && p[0] < 128 && exists|i: int|
                    0 <= i < old(self).spec_args().len() && arg_names(encode_utf8(old(self).spec_args()[i]@), p)
            },
            final(self).spec_has_valid_args() == (old(self).spec_has_valid_args() || r),
    {
        let p = param.as_str().as_bytes();
        if p.len() == 0 || p[0] >= 128 {
            return false;
        }
        let mut i: usize = 0;
        while i < self.args.len()
            invariant
                p@ == encode_utf8(param@),
                p@.len() > 0,
                p@[0] < 128,
                i <= self.args@.len(),
                self.args@ == old(self).args@,
                self.has_valid_args == old(self).has_valid_args,
                forall|j: int| 0 <= j < i ==> !arg_names(encode_utf8(self.args@[j]@), p@),
            decreases self.args@.len() - i,
        {
            let a = self.args[i].as_str().as_bytes();
            assert(a@ == encode_utf8(self.args@[i as int]@));
            if bytes_name_param(a, p) {
                assert(arg_names(encode_utf8(old(self).args@[i as int]@), p@));
                self.has_valid_args = true;
                return true;
            }
            i = i + 1;
        }
        false
    }
}

/// Whether `arg` names option `param` (see `arg_names`).
fn bytes_name_param(arg: &[u8], param: &[u8]) -> (r: bool)
    requires
        param@.len() > 0,
    ensures
        r == arg_names(arg@, param@),
{
    assert(arg@.subrange(0, arg@.len() as int) =~= arg@);
    if bytes_eq_from(arg, 0, param) {
        return true;
    }
    if arg.len() >= 2 && arg.len() - 2 == param.len() && arg[0] == 45 && arg[1] == 45 && bytes_eq_from(arg, 2, param) {
        assert(arg@ =~= seq![45u8, 45u8] + param@);
        return true;
    }
    if arg.len() == 2 && arg[0] == 45 && arg[1] == param[0] {
        assert(arg@ =~= seq![45u8, param@[0]]);
        return true;
    }
    proof {
        if arg@ == seq![45u8, 45u8] + param@ {
            assert(arg@.subrange(2, arg@.len() as int) =~= param@);
        }
    }
    false
}

/// Whether `arg` from position `start` on equals `other`.
fn bytes_eq_from(arg: &[u8], start: usize, other: &[u8]) -> (r: bool)
    requires
        start <= arg@.len(),
    ensures
        r == (arg@.subrange(start as int, arg@.len() as int) == other@),
{
    if arg.len() - start != other.len() {
        return false;
    }
    let n = arg.len();
    let mut i: usize = 0;
    while i < other.len()
        invariant
            n == arg@.len(),
            start <= arg@.len(),
            arg@.len() - start == other@.len(),
            i <= other@.len(),
            forall|j: int| 0 <= j < i ==> arg@[start + j] == other@[j],
        decreases other@.len() - i,
    {
        assert(start + i < arg@.len());
        if arg[start + i] != other[i] {
            assert(arg@.subrange(start as int, arg@.len() as int)[i as int] != other@[i as int]);
            return false;
        }
        i = i + 1;
    }
    assert(arg@.subrange(start as int, arg@.len() as int) =~= other@);
    true
}

} // verus!
