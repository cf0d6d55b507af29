//! An indenting text writer for the request pretty-printer.
use vstd::prelude::*;

verus! {

/// `n` space characters.
pub open spec fn spec_spaces(n: nat) -> Seq<char>
    decreases n,
{
    if n == 0 {
        Seq::empty()
    } else {
        spec_spaces((n - 1) as nat) + seq![' ']
    }
}

/// One written line: four spaces per indentation level, the message, and a
/// line break.
pub open spec fn spec_padded(depth: nat, msg: Seq<char>) -> Seq<char> {
    spec_spaces(4 * depth) + msg + seq!['\n']
}

/// Splitting a count of spaces splits the text.
proof fn lemma_spaces_add(a: nat, b: nat)
    ensures
        spec_spaces(a + b) == spec_spaces(a) + spec_spaces(b),
    decreases b,
{
    if b == 0 {
        assert(spec_spaces(a + 0) =~= spec_spaces(a) + spec_spaces(0));
    } else {
        lemma_spaces_add(a, (b - 1) as nat);
        assert(spec_spaces(a + b) =~= spec_spaces(a) + spec_spaces(b));
    }
}

/// Accumulates indented lines of text.
pub struct Writer {
    buf: String,
    depth: usize,
}

/// Marks one open section of the writer; `finish` closes it.
pub struct ScopeGuard {}

impl Writer {
    /// The text written so far.
    pub closed spec fn buf_spec(self) -> Seq<char> {
        self.buf@
    }

    /// The current indentation level.
    pub closed spec fn depth_spec(self) -> nat {
        self.depth as nat
    }

    pub fn new() -> (r: Writer)
        ensures
            r.buf_spec() == Seq::<char>::empty(),
            r.depth_spec() == 0,
    {
        Writer { buf: String::new(), depth: 0 }
    }

    /// Writes one line at the current indentation.
    pub fn write_padded(&mut self, msg: &str)
        requires
            old(self).depth_spec() * 4 <= usize::MAX,
        ensures
            final(self).depth_spec() == old(self).depth_spec(),
            final(self).buf_spec() == old(self).buf_spec() + spec_padded(
                old(self).depth_spec(),
                msg@,
            ),
    {
        let ghost base = self.buf@;
        let mut k: usize = 0;
        while k < self.depth
            invariant
                0 <= k <= self.depth,
                self.depth == old(self).depth,
                self.depth * 4 <= usize::MAX,
                self.buf@ == base + spec_spaces(4 * k as nat),
            decreases self.depth - k,
        {
            self.buf.append("    ");
            proof {
                reveal_strlit("    ");
                lemma_spaces_add(4 * k as nat, 4);
                reveal_with_fuel(spec_spaces, 5);
                assert(spec_spaces(4) =~= seq![' ', ' ', ' ', ' ']);
                assert("    "@ =~= seq![' ', ' ', ' ', ' ']);
                assert(self.buf@ =~= base + spec_spaces(4 * (k + 1) as nat));
            }
            k = k + 1;
        }
        self.buf.append(msg);
        self.buf.append("\n");
        proof {
            reveal_strlit("\n");
            assert("\n"@ =~= seq!['\n']);
            assert(self.buf@ =~= base + spec_padded(old(self).depth_spec(), msg@));
        }
    }

    /// Writes one `key: value` line at the current indentation.
    pub fn write_key_value(&mut self, k: &str, v: &str)
        requires
            old(self).depth_spec() * 4 <= usize::MAX,
        ensures
            final(self).depth_spec() == old(self).depth_spec(),
            final(self).buf_spec() == old(self).buf_spec() + spec_padded(
                old(self).depth_spec(),
                k@ + ": "@ + v@,
            ),
    {
        let mut line = k.to_owned();
        line.append(": ");
        line.append(v);
        proof {
            assert(line@ =~= k@ + ": "@ + v@);
        }
        self.write_padded(line.as_str());
    }

    /// Opens a section: writes its header and indents what follows.
    pub fn begin(&mut self, section: &str) -> (r: ScopeGuard)
        requires
            old(self).depth_spec() * 4 <= usize::MAX,
            old(self).depth_spec() + 1 <= usize::MAX,
        ensures
            final(self).depth_spec() == old(self).depth_spec() + 1,
            final(self).buf_spec() == old(self).buf_spec() + spec_padded(
                old(self).depth_spec(),
                section@ + " {"@,
            ),
    {
        let mut line = section.to_owned();
        line.append(" {");
        proof {
            assert(line@ =~= section@ + " {"@);
        }
        self.write_padded(line.as_str());
        self.depth = self.depth + 1;
        ScopeGuard {  }
    }

    /// Closes the innermost open section.
    pub fn finish(&mut self, guard: ScopeGuard)
        requires
            old(self).depth_spec() > 0,
            (old(self).depth_spec() - 1) * 4 <= usize::MAX,
        ensures
            final(self).depth_spec() == old(self).depth_spec() - 1,
            final(self).buf_spec() == old(self).buf_spec() + spec_padded(
                (old(self).depth_spec() - 1) as nat,
                "}"@,
            ),
    {
        let ScopeGuard {  } = guard;
        self.depth = self.depth - 1;
        self.write_padded("}");
    }

    /// Hands the accumulated text out.
    pub fn into_inner(self) -> (r: String)
        ensures
            r@ == self.buf_spec(),
    {
        self.buf
    }
}

} // verus!
