//! The optional instructions block and the intro banner of a game.
use vstd::prelude::*;
use vstd::string::*;

verus! {

/// Options for displaying game instructions in the intro: whether to ask
/// before showing them, whether that question expects 1 or 0 rather than
/// YES or NO, the question, and the text, on one line or on several.
pub struct Instructions<'a> {
    ask_numeric: (bool, bool),
    msg: &'a str,
    instructions: &'a str,
    instructions_multiline: Vec<&'a str>,
    multiline: bool,
}

/// What an instructions block holds.
pub struct InstructionsView {
    /// Whether the question is asked at all.
    pub ask: bool,
    /// Whether the question expects 1 or 0.
    pub numeric: bool,
    /// The question.
    pub question: Seq<char>,
    /// The lines shown after a yes, in order.
    pub body: Seq<Seq<char>>,
}

/// The texts of a sequence of string slices.
pub open spec fn str_texts(v: Seq<&str>) -> Seq<Seq<char>> {
    v.map_values(|x: &str| x@)
}

impl<'a> View for Instructions<'a> {
    type V = InstructionsView;

    closed spec fn view(&self) -> InstructionsView {
        InstructionsView {
            ask: self.ask_numeric.0,
            numeric: self.ask_numeric.1,
            question: self.msg@,
            body: if self.multiline {
                str_texts(self.instructions_multiline@)
            } else {
                seq![self.instructions@]
            },
        }
    }
}

impl<'a> Instructions<'a> {
    /// Instructions of one line.
    pub fn new(ask_to_show: bool, numeric: bool, msg: &'a str, instructions: &'a str) -> (r: Self)
        ensures
            r@ == (InstructionsView {
                ask: ask_to_show,
                numeric,
                question: msg@,
                body: seq![instructions@],
            }),
    {
        Instructions {
            ask_numeric: (ask_to_show, numeric),
            msg,
            instructions,
            instructions_multiline: Vec::new(),
            multiline: false,
        }
    }

    /// Instructions of several lines, shown in order.
    pub fn new_multiline(ask_to_show: bool, numeric: bool, msg: &'a str, instructions: Vec<&'a str>) -> (r:
        Self)
        ensures
            r@ == (InstructionsView {
                ask: ask_to_show,
                numeric,
                question: msg@,
                body: str_texts(instructions@),
            }),
    {
        Instructions {
            ask_numeric: (ask_to_show, numeric),
            msg,
            instructions: "",
            instructions_multiline: instructions,
            multiline: true,
        }
    }

    /// Whether the question is to be asked.
    pub fn asks_to_show(&self) -> (r: bool)
        ensures
            r == self@.ask,
    {
        self.ask_numeric.0
    }

    /// Whether the question expects 1 or 0.
    pub fn is_numeric(&self) -> (r: bool)
        ensures
            r == self@.numeric,
    {
        self.ask_numeric.1
    }

    /// The question.
    pub fn question(&self) -> (r: &'a str)
        ensures
            r@ == self@.question,
    {
        self.msg
    }

    /// The lines to display once the question got `answer`: the text after a
    /// yes to a question that is asked, nothing otherwise.
    pub fn lines_to_show(&self, answer: bool) -> (r: Vec<&'a str>)
        ensures
            str_texts(r@) == if self@.ask && answer {
                self@.body
            } else {
                Seq::empty()
            },
    {
        let mut r: Vec<&'a str> = Vec::new();
        if !(self.ask_numeric.0 && answer) {
            assert(str_texts(r@) =~= Seq::empty());
            return r;
        }
        if !self.multiline {
            r.push(self.instructions);
            assert(str_texts(r@) =~= seq![self.instructions@]);
            return r;
        }
        let n = self.instructions_multiline.len();
        let mut i: usize = 0;
        while i < n
            invariant
                n == self.instructions_multiline@.len(),
                0 <= i <= n,
                str_texts(r@) == str_texts(self.instructions_multiline@.take(i as int)),
            decreases n - i,
        {
            let ghost before = r@;
            r.push(self.instructions_multiline[i]);
            assert(str_texts(r@) =~= str_texts(before).push(self.instructions_multiline@[i as int]@));
            assert(self.instructions_multiline@.take(i + 1) =~= self.instructions_multiline@.take(
                i as int,
            ).push(self.instructions_multiline@[i as int]));
            i = i + 1;
        }
        assert(self.instructions_multiline@.take(n as int) =~= self.instructions_multiline@);
        r
    }
}

/// The intro banner of a game called `name`.
pub open spec fn intro_text(name: Seq<char>) -> Seq<char> {
    "\n\n\t\t"@ + name + "\nCREATIVE COMPUTING MORRISTOWN, NEW JERSEY\n"@
}

/// Builds the intro banner of a game called `name`.
pub fn intro_banner(name: &str) -> (r: String)
    ensures
        r@ == intro_text(name@),
{
    let mut r = String::from_str("\n\n\t\t");
    r.append(name);
    r.append("\nCREATIVE COMPUTING MORRISTOWN, NEW JERSEY\n");
    r
}

} // verus!
