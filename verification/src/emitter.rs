//! The emitter: two text buffers that only grow, one for the prologue and
//! the declarations, one for the translated statements.

use vstd::prelude::*;
use vstd::string::*;

verus! {

/// `text` followed by a line feed.
pub open spec fn line(text: Seq<char>) -> Seq<char> {
    text.push('\n')
}

/// The sink of a translation. The header takes the prologue and the
/// declarations, the body the statements; the finished text is the header
/// followed by the body.
pub struct Emitter {
    outfile: &'static str,
    header: String,
    code: String,
}

impl Emitter {
    /// What has been declared so far.
    pub closed spec fn header_text(&self) -> Seq<char> {
        self.header@
    }

    /// What has been written so far.
    pub closed spec fn body_text(&self) -> Seq<char> {
        self.code@
    }

    /// The name of the destination this emitter was made for.
    pub closed spec fn destination(&self) -> Seq<char> {
        self.outfile@
    }

    /// An emitter with two empty buffers.
    pub fn new(outfile: &'static str) -> (emitter: Emitter)
        ensures
            emitter.header_text() == Seq::<char>::empty(),
            emitter.body_text() == Seq::<char>::empty(),
            emitter.destination() == outfile@,
    {
        Emitter { outfile, header: String::new(), code: String::new() }
    }

    /// Appends `code` and a line feed to the header.
    pub fn header_line(&mut self, code: &str)
        ensures
            final(self).header_text() == old(self).header_text() + line(code@),
            final(self).body_text() == old(self).body_text(),
            final(self).destination() == old(self).destination(),
    {
        self.header.append(code);
        self.header.append("\n");
        proof {
            reveal_strlit("\n");
            assert(self.header@ =~= old(self).header@ + line(code@));
        }
    }

    /// Appends `code` and a line feed to the body.
    pub fn emit_line(&mut self, code: &str)
        ensures
            final(self).body_text() == old(self).body_text() + line(code@),
            final(self).header_text() == old(self).header_text(),
            final(self).destination() == old(self).destination(),
    {
        self.code.append(code);
        self.code.append("\n");
        proof {
            reveal_strlit("\n");
            assert(self.code@ =~= old(self).code@ + line(code@));
        }
    }

    /// Appends `code` to the body as it is.
    pub fn emit(&mut self, code: &str)
        ensures
            final(self).body_text() == old(self).body_text() + code@,
            final(self).header_text() == old(self).header_text(),
            final(self).destination() == old(self).destination(),
    {
        self.code.append(code);
    }

    /// The destination's name.
    pub fn outfile(&self) -> (name: &'static str)
        ensures
            name@ == self.destination(),
    {
        self.outfile
    }

    /// The finished text: the header, then the body.
    pub fn output(&self) -> (text: String)
        ensures
            text@ == self.header_text() + self.body_text(),
    {
        let mut text = self.header.clone();
        text.append(self.code.as_str());
        text
    }
}

} // verus!
