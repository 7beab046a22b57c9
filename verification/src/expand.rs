//! The dictionary expander: once the text has said "loaded kext", short
//! codes stand for the common parts of kernel-extension bundle identifiers.

use vstd::prelude::*;
use vstd::string::StringExecFns;

verus! {

/// The placeholder `!` that opens a two-character dictionary code.
pub const BANG: u8 = 0x21;

/// Whether the dictionary is in use yet. The latch only ever goes from
/// `Dormant` to `Active`.
#[derive(Clone, Copy, Debug, PartialEq, Eq, Structural)]
pub enum Latch {
    Dormant,
    Active,
}

/// The phrase after which the dictionary applies.
pub open spec fn trigger() -> Seq<char> {
    "loaded kext"@
}

/// Whether `text` ends in the trigger phrase.
pub open spec fn ends_in_trigger(text: Seq<char>) -> bool {
    trigger().is_suffix_of(text)
}

/// The vendor prefix that a single code stands for, whatever came before it.
pub open spec fn prefix_expansion(c: u8) -> Option<Seq<char>> {
    if c == 0x3E {
        Some("com.apple.driver."@)
    } else if c == 0x7C {
        Some("com.apple.iokit."@)
    } else if c == 0x24 {
        Some("com.apple.security."@)
    } else if c == 0x40 {
        Some("com.apple."@)
    } else {
        None
    }
}

/// The word that code `c` stands for when it directly follows the placeholder.
pub open spec fn pair_expansion(c: u8) -> Option<Seq<char>> {
    if c == 0x41 {
        Some("Apple"@)
    } else if c == 0x61 {
        Some("Action"@)
    } else if c == 0x42 {
        Some("Bluetooth"@)
    } else if c == 0x43 {
        Some("Controller"@)
    } else if c == 0x46 {
        Some("Family"@)
    } else if c == 0x49 {
        Some("Intel"@)
    } else if c == 0x50 {
        Some("Profile"@)
    } else if c == 0x53 {
        Some("Storage"@)
    } else if c == 0x55 {
        Some("AppleUSB"@)
    } else {
        None
    }
}

/// The expander as a value: its latch, the last code it let through
/// unchanged (0 for none), and the text written so far.
pub struct ExpanderModel {
    pub latch: Latch,
    pub prev: u8,
    pub out: Seq<char>,
}

/// The expander before any code has arrived.
pub open spec fn initial() -> ExpanderModel {
    ExpanderModel { latch: Latch::Dormant, prev: 0, out: Seq::empty() }
}

/// What one incoming code does to the expander.
///
/// Dormant, the code is written as it is, and the latch closes as soon as the
/// text ends in the trigger phrase. Active, a prefix code is replaced by its
/// prefix; a dictionary code directly after the placeholder replaces the
/// placeholder by its word; anything else is written as it is and remembered.
pub open spec fn step(m: ExpanderModel, c: u8) -> ExpanderModel {
    match m.latch {
        Latch::Dormant => {
            let out = m.out.push(c as char);
            ExpanderModel {
                latch: if ends_in_trigger(out) {
                    Latch::Active
                } else {
                    Latch::Dormant
                },
                prev: 0,
                out,
            }
        },
        Latch::Active => {
            if prefix_expansion(c) is Some {
                ExpanderModel {
                    latch: Latch::Active,
                    prev: 0,
                    out: m.out + prefix_expansion(c).unwrap(),
                }
            } else if m.prev == BANG && pair_expansion(c) is Some {
                ExpanderModel {
                    latch: Latch::Active,
                    prev: 0,
                    out: m.out.drop_last() + pair_expansion(c).unwrap(),
                }
            } else {
                ExpanderModel { latch: Latch::Active, prev: c, out: m.out.push(c as char) }
            }
        },
    }
}

/// The expander after it has taken all of `codes`, starting from `m`.
pub open spec fn run(m: ExpanderModel, codes: Seq<u8>) -> ExpanderModel
    decreases codes.len(),
{
    if codes.len() == 0 {
        m
    } else {
        step(run(m, codes.drop_last()), codes.last())
    }
}

/// The text that `codes` expand to.
pub open spec fn expand_spec(codes: Seq<u8>) -> Seq<char> {
    run(initial(), codes).out
}

/// The codes read as characters, one for one.
pub open spec fn as_chars(codes: Seq<u8>) -> Seq<char> {
    codes.map_values(|c: u8| c as char)
}

/// A code that was let through and remembered is the last character written.
pub open spec fn model_wf(m: ExpanderModel) -> bool {
    &&& m.latch == Latch::Dormant ==> m.prev == 0
    &&& m.prev != 0 ==> m.out.len() > 0 && m.out.last() == m.prev as char
}

/// `String::push` appends exactly the given character.
pub assume_specification[ String::push ](s: &mut String, c: char)
    ensures
        final(s)@ == old(s)@.push(c),
;

/// `String::pop` removes the last character and returns it; on an empty
/// string it returns `None` and changes nothing.
pub assume_specification[ String::pop ](s: &mut String) -> (r: Option<char>)
    ensures
        old(s)@.len() == 0 ==> r is None && final(s)@ == old(s)@,
        old(s)@.len() > 0 ==> r == Some(old(s)@.last()) && final(s)@ == old(s)@.drop_last(),
;

/// `str::ends_with` with a string as the pattern: whether the last
/// characters of `text` are those of `phrase`.
#[verifier::external_body]
fn ends_with(text: &str, phrase: &str) -> (r: bool)
    ensures
        r == phrase@.is_suffix_of(text@),
{
    text.ends_with(phrase)
}

fn prefix_for(c: u8) -> (r: Option<&'static str>)
    ensures
        r is Some <==> prefix_expansion(c) is Some,
        r is Some ==> r.unwrap()@ == prefix_expansion(c).unwrap(),
{
    if c == 0x3E {
        Some("com.apple.driver.")
    } else if c == 0x7C {
        Some("com.apple.iokit.")
    } else if c == 0x24 {
        Some("com.apple.security.")
    } else if c == 0x40 {
        Some("com.apple.")
    } else {
        None
    }
}

fn pair_for(c: u8) -> (r: Option<&'static str>)
    ensures
        r is Some <==> pair_expansion(c) is Some,
        r is Some ==> r.unwrap()@ == pair_expansion(c).unwrap(),
{
    if c == 0x41 {
        Some("Apple")
    } else if c == 0x61 {
        Some("Action")
    } else if c == 0x42 {
        Some("Bluetooth")
    } else if c == 0x43 {
        Some("Controller")
    } else if c == 0x46 {
        Some("Family")
    } else if c == 0x49 {
        Some("Intel")
    } else if c == 0x50 {
        Some("Profile")
    } else if c == 0x53 {
        Some("Storage")
    } else if c == 0x55 {
        Some("AppleUSB")
    } else {
        None
    }
}

/// The expander: takes character codes one by one and writes the text.
pub struct TokenExpander {
    latch: Latch,
    prev: u8,
    out: String,
}

impl View for TokenExpander {
    type V = ExpanderModel;

    closed spec fn view(&self) -> ExpanderModel {
        ExpanderModel { latch: self.latch, prev: self.prev, out: self.out@ }
    }
}

impl TokenExpander {
    /// The state is one that `new` and `push` can lead to.
    pub open spec fn wf(&self) -> bool {
        model_wf(self@)
    }

    /// A dormant expander with nothing written.
    pub fn new() -> (e: Self)
        ensures
            e.wf(),
            e@ == initial(),
    {
        TokenExpander { latch: Latch::Dormant, prev: 0, out: String::new() }
    }

    /// Takes one code.
    pub fn push(&mut self, c: u8)
        requires
            old(self).wf(),
        ensures
            final(self).wf(),
            final(self)@ == step(old(self)@, c),
    {
        match self.latch {
            Latch::Dormant => {
                self.out.push(c as char);
                if ends_with(self.out.as_str(), "loaded kext") {
                    self.latch = Latch::Active;
                }
            },
            Latch::Active => {
                if let Some(prefix) = prefix_for(c) {
                    self.out.append(prefix);
                    self.prev = 0;
                } else {
                    let word = if self.prev == BANG {
                        pair_for(c)
                    } else {
                        None
                    };
                    if let Some(word) = word {
                        self.out.pop();
                        self.out.append(word);
                        self.prev = 0;
                    } else {
                        self.out.push(c as char);
                        self.prev = c;
                    }
                }
            },
        }
    }

    /// Whether the dictionary is in use.
    pub fn latch(&self) -> (l: Latch)
        ensures
            l == self@.latch,
    {
        self.latch
    }

    /// The text written so far.
    pub fn output(&self) -> (s: &str)
        ensures
            s@ == self@.out,
    {
        self.out.as_str()
    }

    /// Gives up the expander for the text it has written.
    pub fn into_output(self) -> (s: String)
        ensures
            s@ == self@.out,
    {
        self.out
    }
}

/// Taking one more code is one more step.
pub proof fn lemma_run_push(m: ExpanderModel, codes: Seq<u8>, c: u8)
    ensures
        run(m, codes.push(c)) == step(run(m, codes), c),
{
    assert(codes.push(c).drop_last() =~= codes);
}

/// Expands a sequence of character codes.
pub fn expand(codes: &[u8]) -> (text: String)
    ensures
        text@ == expand_spec(codes@),
{
    let mut expander = TokenExpander::new();
    let mut i: usize = 0;
    assert(codes@.take(0) =~= Seq::<u8>::empty());
    while i < codes.len()
        invariant
            i <= codes.len(),
            expander.wf(),
            expander@ == run(initial(), codes@.take(i as int)),
        decreases codes.len() - i,
    {
        proof {
            lemma_run_push(initial(), codes@.take(i as int), codes@[i as int]);
            assert(codes@.take(i as int).push(codes@[i as int]) =~= codes@.take(i + 1));
        }
        expander.push(codes[i]);
        i += 1;
    }
    assert(codes@.take(i as int) =~= codes@);
    expander.into_output()
}

} // verus!
