//! A text accumulator with indentation bookkeeping. Every writing method
//! states exactly which characters it appends.

use vstd::prelude::*;
use vstd::string::StrSliceExecFns;
use vstd::string::StringExecFns;
use crate::strings::{repeated, lined, first_nl, lemma_first_nl_is};

verus! {

pub struct PrettyWriter {
    writer: String,
    indent: usize,
    indent_bytes: &'static str,
    continuation_bytes: &'static str,
}

pub const DEFAULT_CONTINUATION_BYTES: &'static str = "    ";

impl View for PrettyWriter {
    type V = Seq<char>;

    closed spec fn view(&self) -> Seq<char> {
        self.writer@
    }
}

impl PrettyWriter {
    /// The current indentation depth, in units.
    pub closed spec fn spec_indent(&self) -> nat {
        self.indent as nat
    }

    /// The text written for one unit of indentation.
    pub closed spec fn spec_indent_bytes(&self) -> Seq<char> {
        self.indent_bytes@
    }

    /// The text written for a continuation line.
    pub closed spec fn spec_continuation_bytes(&self) -> Seq<char> {
        self.continuation_bytes@
    }

    /// True when `other` has the same indentation state and format strings.
    pub open spec fn same_format(&self, other: &PrettyWriter) -> bool {
        &&& self.spec_indent() == other.spec_indent()
        &&& self.spec_indent_bytes() == other.spec_indent_bytes()
        &&& self.spec_continuation_bytes() == other.spec_continuation_bytes()
    }

    /// Create a new `PrettyWriter` with `indent` initial units of indentation
    pub fn new_with_indent(indent: usize, indent_bytes: &'static str) -> (r: Self)
        ensures
            r@ == Seq::<char>::empty(),
            r.spec_indent() == indent,
            r.spec_indent_bytes() == indent_bytes@,
            r.spec_continuation_bytes() == DEFAULT_CONTINUATION_BYTES@,
    {
        PrettyWriter {
            writer: String::new(),
            indent,
            indent_bytes,
            continuation_bytes: DEFAULT_CONTINUATION_BYTES,
        }
    }

    pub fn new(indent_bytes: &'static str) -> (r: Self)
        ensures
            r@ == Seq::<char>::empty(),
            r.spec_indent() == 0,
            r.spec_indent_bytes() == indent_bytes@,
            r.spec_continuation_bytes() == DEFAULT_CONTINUATION_BYTES@,
    {
        Self::new_with_indent(0, indent_bytes)
    }

    /// One more unit of indentation for what follows.
    pub(crate) fn push_indent(&mut self)
        requires
            old(self).spec_indent() < usize::MAX,
        ensures
            final(self)@ == old(self)@,
            final(self).spec_indent() == old(self).spec_indent() + 1,
            final(self).spec_indent_bytes() == old(self).spec_indent_bytes(),
            final(self).spec_continuation_bytes() == old(self).spec_continuation_bytes(),
    {
        self.indent = self.indent + 1;
    }

    /// One unit of indentation less for what follows.
    pub(crate) fn pop_indent(&mut self)
        requires
            old(self).spec_indent() >= 1,
        ensures
            final(self)@ == old(self)@,
            final(self).spec_indent() == old(self).spec_indent() - 1,
            final(self).spec_indent_bytes() == old(self).spec_indent_bytes(),
            final(self).spec_continuation_bytes() == old(self).spec_continuation_bytes(),
    {
        self.indent = self.indent - 1;
    }

    /// Run block_ops as an indented block within the current `PrettyWriter`
    pub fn with_block<F: FnOnce(PrettyWriter) -> PrettyWriter>(&mut self, block_ops: F) -> (ret:
        &mut Self)
        requires
            old(self).spec_indent() < usize::MAX,
            forall|w: PrettyWriter|
                (w@ == old(self)@ && w.spec_indent() == old(self).spec_indent() + 1
                    && w.spec_indent_bytes() == old(self).spec_indent_bytes()
                    && w.spec_continuation_bytes() == old(self).spec_continuation_bytes())
                    ==> #[trigger] call_requires(block_ops, (w,)),
        ensures
            exists|w1: PrettyWriter, w2: PrettyWriter|
                {
                    &&& w1@ == old(self)@
                    &&& w1.spec_indent() == old(self).spec_indent() + 1
                    &&& w1.spec_indent_bytes() == old(self).spec_indent_bytes()
                    &&& w1.spec_continuation_bytes() == old(self).spec_continuation_bytes()
                    &&& #[trigger] call_ensures(block_ops, (w1,), w2)
                    &&& (*ret)@ == w2@
                    &&& ret.spec_indent() == old(self).spec_indent()
                    &&& ret.spec_indent_bytes() == w2.spec_indent_bytes()
                    &&& ret.spec_continuation_bytes() == w2.spec_continuation_bytes()
                },
            *final(self) == *final(ret),
    {
        let saved: usize = self.indent;
        self.indent = self.indent + 1;
        let mut tmp = PrettyWriter {
            writer: String::new(),
            indent: 0,
            indent_bytes: self.indent_bytes,
            continuation_bytes: self.continuation_bytes,
        };
        core::mem::swap(&mut tmp, self);
        let ghost w1v = tmp;
        let res = block_ops(tmp);
        let ghost w2v = res;
        *self = res;
        self.indent = saved;
        proof {
            assert(call_ensures(block_ops, (w1v,), w2v));
        }
        self
    }

    /// Run braced_ops as a braced, indented block within the current
    /// `PrettyWriter`
    pub fn braced<F: FnOnce(PrettyWriter) -> PrettyWriter>(&mut self, braced_ops: F) -> (ret:
        &mut Self)
        requires
            old(self).spec_indent() < usize::MAX,
            forall|w: PrettyWriter|
                (w@ == old(self)@ + "{"@ && w.spec_indent() == old(self).spec_indent() + 1
                    && w.spec_indent_bytes() == old(self).spec_indent_bytes()
                    && w.spec_continuation_bytes() == old(self).spec_continuation_bytes())
                    ==> #[trigger] call_requires(braced_ops, (w,)),
        ensures
            exists|w1: PrettyWriter, w2: PrettyWriter|
                {
                    &&& w1@ == old(self)@ + "{"@
                    &&& w1.spec_indent() == old(self).spec_indent() + 1
                    &&& w1.spec_indent_bytes() == old(self).spec_indent_bytes()
                    &&& w1.spec_continuation_bytes() == old(self).spec_continuation_bytes()
                    &&& #[trigger] call_ensures(braced_ops, (w1,), w2)
                    &&& (*ret)@ == w2@ + "}"@
                    &&& ret.spec_indent() == old(self).spec_indent()
                    &&& ret.spec_indent_bytes() == w2.spec_indent_bytes()
                    &&& ret.spec_continuation_bytes() == w2.spec_continuation_bytes()
                },
            *final(self) == *final(ret),
    {
        self.write("{");
        self.with_block(braced_ops);
        self.write("}")
    }

    /// Write raw data
    pub fn write(&mut self, buf: &str) -> (ret: &mut Self)
        ensures
            (*ret)@ == old(self)@ + buf@,
            ret.same_format(old(self)),
            *final(self) == *final(ret),
    {
        self.writer.append(buf);
        self
    }

    /// Indent, write raw data and terminate with an end of line
    pub fn write_line(&mut self, buf: &str) -> (ret: &mut Self)
        ensures
            (*ret)@ == old(self)@ + repeated(old(self).spec_indent_bytes(),
                old(self).spec_indent()) + buf@ + "\n"@,
            ret.same_format(old(self)),
            *final(self) == *final(ret),
    {
        self.indent();
        self.write(buf);
        self.eol()
    }

    /// Write multiple indented lines
    pub fn write_lines(&mut self, buf: &str) -> (ret: &mut Self)
        ensures
            (*ret)@ == old(self)@ + lined(old(self).spec_indent_bytes(),
                old(self).spec_indent(), buf@),
            ret.same_format(old(self)),
            *final(self) == *final(ret),
        decreases buf@.len(),
    {
        let n = buf.unicode_len();
        if n == 0 {
            proof {
                assert(self@ =~= old(self)@ + lined(self.spec_indent_bytes(), self.spec_indent(),
                    buf@));
            }
            return self;
        }
        let mut j: usize = 0;
        let mut found = false;
        while !found && j < n
            invariant
                n == buf@.len(),
                j <= n,
                forall|i: int| 0 <= i < j ==> buf@[i] != '\n',
                found ==> j < n && buf@[j as int] == '\n',
            decreases n - j + (if found { 0int } else { 1int }),
        {
            if buf.get_char(j) == '\n' {
                found = true;
            } else {
                j = j + 1;
            }
        }
        proof {
            lemma_first_nl_is(buf@, j as int);
        }
        let line = buf.substring_char(0, j);
        self.write_line(line);
        if j < n {
            let rest = buf.substring_char(j + 1, n);
            proof {
                assert(rest@ =~= buf@.skip(j as int + 1));
            }
            self.write_lines(rest);
        }
        proof {
            let ib = old(self).spec_indent_bytes();
            let ind = old(self).spec_indent();
            assert(line@ =~= buf@.take(j as int));
            if j < n {
                assert(self@ =~= old(self)@ + lined(ib, ind, buf@));
            } else {
                assert(lined(ib, ind, Seq::<char>::empty()) == Seq::<char>::empty());
                assert(self@ =~= old(self)@ + lined(ib, ind, buf@));
            }
        }
        self
    }

    /// Output an indentation string
    pub fn indent(&mut self) -> (ret: &mut Self)
        ensures
            (*ret)@ == old(self)@ + repeated(old(self).spec_indent_bytes(),
                old(self).spec_indent()),
            ret.same_format(old(self)),
            *final(self) == *final(ret),
    {
        let mut i: usize = 0;
        proof {
            assert(self@ =~= old(self)@ + repeated(self.spec_indent_bytes(), 0));
        }
        while i < self.indent
            invariant
                i <= self.indent,
                self@ == old(self)@ + repeated(old(self).spec_indent_bytes(), i as nat),
                self.same_format(old(self)),
            decreases self.indent - i,
        {
            self.writer.append(self.indent_bytes);
            i = i + 1;
        }
        self
    }

    /// Continuation
    pub fn continuation(&mut self) -> (ret: &mut Self)
        ensures
            (*ret)@ == old(self)@ + repeated(old(self).spec_indent_bytes(),
                old(self).spec_indent()) + old(self).spec_continuation_bytes(),
            ret.same_format(old(self)),
            *final(self) == *final(ret),
    {
        self.indent();
        self.writer.append(self.continuation_bytes);
        self
    }

    pub fn eol(&mut self) -> (ret: &mut Self)
        ensures
            (*ret)@ == old(self)@ + "\n"@,
            ret.same_format(old(self)),
            *final(self) == *final(ret),
    {
        self.writer.append("\n");
        self
    }

    pub fn eob(&mut self) -> (ret: &mut Self)
        ensures
            (*ret)@ == old(self)@ + "\n"@,
            ret.same_format(old(self)),
            *final(self) == *final(ret),
    {
        self.eol()
    }

    pub fn finish(&mut self) -> (r: String)
        ensures
            r@ == old(self)@,
            *final(self) == *old(self),
    {
        self.writer.clone()
    }
}

} // verus!
