//! Which firmware variables hold the panic log, in what order they are
//! asked for, and how their payloads make up the packed buffer.
//!
//! Reading a variable is the caller's business. The reader here says which
//! variable it wants, takes the answer, and says what it wants next, until
//! it hands over the buffer or reports that there is none.

use vstd::prelude::*;
use vstd::string::StringExecFns;

verus! {

/// The highest index that four hexadecimal digits can name.
pub const LAST_PART: u16 = 0xFFFF;

/// A firmware variable that may hold panic data.
#[derive(Clone, Copy, Debug, PartialEq, Eq, Structural)]
pub enum Variable {
    /// The one variable that holds the whole log.
    Whole,
    /// One of the numbered variables that hold the log in pieces.
    Part(u16),
}

/// The hexadecimal digit, in lower case, for a value below sixteen.
pub open spec fn hex_digit_spec(n: u8) -> char {
    if n < 10 {
        (0x30 + n) as char
    } else {
        (0x57 + n) as char
    }
}

/// The four hexadecimal digits of `i`, highest first.
pub open spec fn hex4_spec(i: u16) -> Seq<char> {
    seq![
        hex_digit_spec((i / 0x1000) as u8),
        hex_digit_spec((i / 0x100 % 0x10) as u8),
        hex_digit_spec((i / 0x10 % 0x10) as u8),
        hex_digit_spec((i % 0x10) as u8),
    ]
}

/// The name under which firmware keeps a variable.
pub open spec fn variable_name_spec(var: Variable) -> Seq<char> {
    match var {
        Variable::Whole => "aapl,panic-info"@,
        Variable::Part(i) => "AAPL,PanicInfo"@ + hex4_spec(i),
    }
}

fn hex_digit(n: u8) -> (c: char)
    requires
        n < 16,
    ensures
        c == hex_digit_spec(n),
{
    if n < 10 {
        (0x30 + n) as char
    } else {
        (0x57 + n) as char
    }
}

/// The name under which firmware keeps a variable.
pub fn variable_name(var: Variable) -> (name: String)
    ensures
        name@ == variable_name_spec(var),
{
    match var {
        Variable::Whole => String::from_str("aapl,panic-info"),
        Variable::Part(i) => {
            let mut name = String::from_str("AAPL,PanicInfo");
            name.push(hex_digit((i / 0x1000) as u8));
            name.push(hex_digit((i / 0x100 % 0x10) as u8));
            name.push(hex_digit((i / 0x10 % 0x10) as u8));
            name.push(hex_digit((i % 0x10) as u8));
            assert(name@ =~= variable_name_spec(var));
            name
        },
    }
}

/// The reader as a value: how many leading bytes of each payload are a
/// header, the variable it is waiting for, and the bytes gathered so far.
pub struct ReaderModel {
    pub header_len: nat,
    pub wanted: Variable,
    pub data: Seq<u8>,
}

/// What the reader says after an answer.
pub enum StepModel {
    Read(ReaderModel),
    Done(Option<Seq<u8>>),
}

/// A payload without its header.
pub open spec fn payload_of(header_len: nat, raw: Seq<u8>) -> Seq<u8> {
    raw.skip(header_len as int)
}

/// The end of reading in pieces: no bytes at all means no log.
pub open spec fn finish(data: Seq<u8>) -> Option<Seq<u8>> {
    if data.len() == 0 {
        None
    } else {
        Some(data)
    }
}

/// What the reader does with the answer for the variable it wanted.
///
/// The whole variable, if it is there, is the buffer. If it is not, the
/// pieces are asked for from index 0 on, and their payloads are joined in
/// that order until one is missing or the indices run out.
pub open spec fn answer_spec(m: ReaderModel, answer: Option<Seq<u8>>) -> StepModel {
    match (m.wanted, answer) {
        (Variable::Whole, Some(raw)) => StepModel::Done(Some(payload_of(m.header_len, raw))),
        (Variable::Whole, None) => StepModel::Read(
            ReaderModel { header_len: m.header_len, wanted: Variable::Part(0), data: Seq::empty() },
        ),
        (Variable::Part(i), Some(raw)) => {
            let data = m.data + payload_of(m.header_len, raw);
            if i == LAST_PART {
                StepModel::Done(finish(data))
            } else {
                StepModel::Read(
                    ReaderModel {
                        header_len: m.header_len,
                        wanted: Variable::Part((i + 1) as u16),
                        data,
                    },
                )
            }
        },
        (Variable::Part(_), None) => StepModel::Done(finish(m.data)),
    }
}

/// Whether an answer is long enough to hold its header.
pub open spec fn answer_fits(header_len: nat, answer: Option<Seq<u8>>) -> bool {
    answer is Some ==> answer.unwrap().len() >= header_len
}

/// An answer as a value.
pub open spec fn slice_view(answer: Option<&[u8]>) -> Option<Seq<u8>> {
    match answer {
        Some(raw) => Some(raw@),
        None => None,
    }
}

/// An outcome, or a recorded answer, as a value.
pub open spec fn bytes_view(bytes: Option<Vec<u8>>) -> Option<Seq<u8>> {
    match bytes {
        Some(raw) => Some(raw@),
        None => None,
    }
}

/// A list of recorded answers as values.
pub open spec fn answers_view(answers: Seq<Option<Vec<u8>>>) -> Seq<Option<Seq<u8>>> {
    answers.map_values(|a: Option<Vec<u8>>| bytes_view(a))
}

/// The answer at position `k` of a list, where a list that is too short
/// stands for variables that are not there.
pub open spec fn answer_at(answers: Seq<Option<Seq<u8>>>, k: int) -> Option<Seq<u8>> {
    if 0 <= k < answers.len() {
        answers[k]
    } else {
        None
    }
}

/// The payloads of the pieces from position `from` on, joined up to the
/// first piece that is missing.
pub open spec fn joined(header_len: nat, answers: Seq<Option<Seq<u8>>>, from: int) -> Seq<u8>
    decreases 0x1_0001 - from,
{
    if 1 <= from <= 0x1_0000 && answer_at(answers, from) is Some {
        payload_of(header_len, answer_at(answers, from).unwrap()) + joined(
            header_len,
            answers,
            from + 1,
        )
    } else {
        Seq::empty()
    }
}

/// The buffer that the variables give, where `answers[0]` is the answer for
/// the whole variable and `answers[i + 1]` the one for piece `i`.
pub open spec fn read_spec(header_len: nat, answers: Seq<Option<Seq<u8>>>) -> Option<Seq<u8>> {
    if answer_at(answers, 0) is Some {
        Some(payload_of(header_len, answer_at(answers, 0).unwrap()))
    } else {
        finish(joined(header_len, answers, 1))
    }
}

/// The reader: asks for one variable at a time.
pub struct NvramReader {
    header_len: usize,
    wanted: Variable,
    data: Vec<u8>,
}

/// What the reader says after an answer: read another variable and come
/// back, or the outcome.
pub enum Step {
    Read(NvramReader),
    Done(Option<Vec<u8>>),
}

impl View for NvramReader {
    type V = ReaderModel;

    closed spec fn view(&self) -> ReaderModel {
        ReaderModel { header_len: self.header_len as nat, wanted: self.wanted, data: self.data@ }
    }
}

impl View for Step {
    type V = StepModel;

    open spec fn view(&self) -> StepModel {
        match self {
            Step::Read(reader) => StepModel::Read(reader@),
            Step::Done(outcome) => StepModel::Done(bytes_view(*outcome)),
        }
    }
}

fn append_payload(data: &mut Vec<u8>, raw: &[u8], header_len: usize)
    requires
        header_len <= raw@.len(),
    ensures
        final(data)@ == old(data)@ + payload_of(header_len as nat, raw@),
{
    let mut j: usize = header_len;
    assert(data@ =~= old(data)@ + raw@.subrange(header_len as int, j as int));
    while j < raw.len()
        invariant
            header_len <= j <= raw@.len(),
            data@ == old(data)@ + raw@.subrange(header_len as int, j as int),
        decreases raw.len() - j,
    {
        data.push(raw[j]);
        j += 1;
        assert(data@ =~= old(data)@ + raw@.subrange(header_len as int, j as int));
    }
    assert(raw@.subrange(header_len as int, j as int) =~= raw@.skip(header_len as int));
}

fn finish_with(data: Vec<u8>) -> (r: Option<Vec<u8>>)
    ensures
        bytes_view(r) == finish(data@),
{
    if data.len() == 0 {
        None
    } else {
        Some(data)
    }
}

impl NvramReader {
    /// A reader that wants the whole variable first. `header_len` is the
    /// number of leading bytes that the platform puts before each payload.
    pub fn new(header_len: usize) -> (reader: Self)
        ensures
            reader@ == (ReaderModel {
                header_len: header_len as nat,
                wanted: Variable::Whole,
                data: Seq::empty(),
            }),
    {
        NvramReader { header_len, wanted: Variable::Whole, data: Vec::new() }
    }

    /// The variable that the reader is waiting for.
    pub fn wanted(&self) -> (var: Variable)
        ensures
            var == self@.wanted,
    {
        self.wanted
    }

    /// The number of leading bytes that each answer must at least hold.
    pub fn header_len(&self) -> (n: usize)
        ensures
            n == self@.header_len,
    {
        self.header_len
    }

    /// Takes the answer for the wanted variable: its raw content, or `None`
    /// where the variable is not there.
    pub fn answer(self, answer: Option<&[u8]>) -> (step: Step)
        requires
            answer_fits(self@.header_len, slice_view(answer)),
        ensures
            step@ == answer_spec(self@, slice_view(answer)),
    {
        let NvramReader { header_len, wanted, data } = self;
        let mut data = data;
        match (wanted, answer) {
            (Variable::Whole, Some(raw)) => {
                let mut payload: Vec<u8> = Vec::new();
                append_payload(&mut payload, raw, header_len);
                assert(payload@ =~= payload_of(header_len as nat, raw@));
                Step::Done(Some(payload))
            },
            (Variable::Whole, None) => Step::Read(
                NvramReader { header_len, wanted: Variable::Part(0), data: Vec::new() },
            ),
            (Variable::Part(i), Some(raw)) => {
                append_payload(&mut data, raw, header_len);
                if i == LAST_PART {
                    Step::Done(finish_with(data))
                } else {
                    Step::Read(NvramReader { header_len, wanted: Variable::Part(i + 1), data })
                }
            },
            (Variable::Part(_), None) => Step::Done(finish_with(data)),
        }
    }
}

/// Reads the panic data from variables whose answers are already known:
/// `answers[0]` for the whole variable, `answers[i + 1]` for piece `i`, and
/// nothing for a variable beyond the end of the list.
pub fn read_from_nvram(header_len: usize, answers: &[Option<Vec<u8>>]) -> (data: Option<Vec<u8>>)
    requires
        forall|k: int|
            0 <= k < answers@.len() ==> answer_fits(
                header_len as nat,
                #[trigger] answers_view(answers@)[k],
            ),
    ensures
        bytes_view(data) == read_spec(header_len as nat, answers_view(answers@)),
{
    let ghost all = answers_view(answers@);
    let ghost h = header_len as nat;
    let mut reader = NvramReader::new(header_len);
    let mut k: usize = 0;
    loop
        invariant
            all == answers_view(answers@),
            h == header_len as nat,
            forall|n: int| 0 <= n < answers@.len() ==> answer_fits(h, #[trigger] all[n]),
            reader@.header_len == h,
            k <= 0x1_0000,
            k == 0 ==> reader@.wanted == Variable::Whole,
            k >= 1 ==> reader@.wanted == Variable::Part((k - 1) as u16) && read_spec(h, all)
                == finish(reader@.data + joined(h, all, k as int)),
        decreases 0x1_0001 - k,
    {
        let answer: Option<&[u8]> = if k < answers.len() {
            match &answers[k] {
                Some(raw) => Some(raw.as_slice()),
                None => None,
            }
        } else {
            None
        };
        assert(slice_view(answer) == answer_at(all, k as int));
        proof {
            let data = reader@.data;
            if k >= 1 {
                if answer is Some {
                    let payload = payload_of(h, answer_at(all, k as int).unwrap());
                    let rest = joined(h, all, k + 1);
                    assert((data + payload) + rest =~= data + (payload + rest));
                    if k == 0x1_0000 {
                        assert((data + payload) + rest =~= data + payload);
                    }
                } else {
                    assert(data + joined(h, all, k as int) =~= data);
                }
            } else {
                assert(Seq::<u8>::empty() + joined(h, all, 1) =~= joined(h, all, 1));
            }
        }
        match reader.answer(answer) {
            Step::Done(outcome) => {
                return outcome;
            },
            Step::Read(next) => {
                reader = next;
                k += 1;
            },
        }
    }
}

} // verus!
