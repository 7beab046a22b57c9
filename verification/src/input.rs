//! Finding the packed buffer in a property list: in a file that the user
//! names, or in what the `nvram` tool prints.
//!
//! Parsing is the caller's business. What arrives here is the dictionary as
//! a list of entries, or the word that there is none.

use vstd::prelude::*;
use vstd::slice::slice_to_vec;
use vstd::string::StringExecFns;

verus! {

/// One entry of a property-list dictionary: its key and, where the value is
/// of the binary-data type, the bytes of the value.
pub struct Entry {
    pub key: String,
    pub data: Option<Vec<u8>>,
}

/// Why a dictionary gives no panic data.
#[derive(Clone, Copy, Debug, PartialEq, Eq, Structural)]
pub enum LookupError {
    /// No key of the dictionary is the one looked for.
    Missing,
    /// The key is there, and its value is not binary data.
    NotData,
}

/// The content of a file that the user named.
#[derive(Debug)]
pub struct FileInput {
    /// The packed buffer.
    pub data: Vec<u8>,
    /// Where the file was no property list and was taken as the buffer
    /// itself: what the parser said of it.
    pub warning: Option<String>,
}

/// An entry as a value.
pub open spec fn entry_view(e: Entry) -> (Seq<char>, Option<Seq<u8>>) {
    (
        e.key@,
        match e.data {
            Some(d) => Some(d@),
            None => None,
        },
    )
}

/// A list of entries as values.
pub open spec fn entries_view(entries: Seq<Entry>) -> Seq<(Seq<char>, Option<Seq<u8>>)> {
    entries.map_values(|e: Entry| entry_view(e))
}

/// A list of strings as values.
pub open spec fn strings_view(strings: Seq<String>) -> Seq<Seq<char>> {
    strings.map_values(|s: String| s@)
}

/// The outcome of a lookup as a value.
pub open spec fn outcome_view(r: Result<Vec<u8>, LookupError>) -> Result<Seq<u8>, LookupError> {
    match r {
        Ok(d) => Ok(d@),
        Err(e) => Err(e),
    }
}

/// The key under which a property list holds the panic data.
pub open spec fn panic_info_key() -> Seq<char> {
    "aapl,panic-info"@
}

/// The text in lower case, as Unicode defines it.
pub uninterp spec fn lowercase(text: Seq<char>) -> Seq<char>;

/// `str::to_lowercase`. The result is named, not described.
#[verifier::external_body]
fn to_lowercase(text: &str) -> (lower: String)
    ensures
        lower@ == lowercase(text@),
{
    text.to_lowercase()
}

/// The first position from `from` on at which `keys` holds `wanted`.
pub open spec fn first_index_from(keys: Seq<Seq<char>>, wanted: Seq<char>, from: int) -> Option<
    int,
>
    decreases keys.len() - from,
{
    if from < 0 || from >= keys.len() {
        None
    } else if keys[from] == wanted {
        Some(from)
    } else {
        first_index_from(keys, wanted, from + 1)
    }
}

/// What the entry at `at` gives, where `at` is the position that a search
/// for the key came back with.
pub open spec fn lookup_spec(entries: Seq<(Seq<char>, Option<Seq<u8>>)>, at: Option<int>) -> Result<
    Seq<u8>,
    LookupError,
> {
    match at {
        None => Err(LookupError::Missing),
        Some(i) => match entries[i].1 {
            Some(d) => Ok(d),
            None => Err(LookupError::NotData),
        },
    }
}

/// The keys of the entries.
pub open spec fn keys_of(entries: Seq<(Seq<char>, Option<Seq<u8>>)>) -> Seq<Seq<char>> {
    entries.map_values(|e: (Seq<char>, Option<Seq<u8>>)| e.0)
}

/// The keys of the entries, in lower case.
pub open spec fn lowered_keys(entries: Seq<(Seq<char>, Option<Seq<u8>>)>) -> Seq<Seq<char>> {
    entries.map_values(|e: (Seq<char>, Option<Seq<u8>>)| lowercase(e.0))
}

/// The panic data of a dictionary whose keys are compared without regard
/// to case: the value of the first key that matches.
pub open spec fn find_panic_info_spec(entries: Seq<(Seq<char>, Option<Seq<u8>>)>) -> Result<
    Seq<u8>,
    LookupError,
> {
    lookup_spec(entries, first_index_from(lowered_keys(entries), panic_info_key(), 0))
}

/// The panic data of a dictionary whose keys are compared as they are.
pub open spec fn find_exact_spec(entries: Seq<(Seq<char>, Option<Seq<u8>>)>) -> Result<
    Seq<u8>,
    LookupError,
> {
    lookup_spec(entries, first_index_from(keys_of(entries), panic_info_key(), 0))
}

/// The first position of `keys` that holds `wanted`.
pub fn first_match(keys: &[String], wanted: &String) -> (at: Option<usize>)
    ensures
        match at {
            Some(i) => first_index_from(strings_view(keys@), wanted@, 0) == Some(i as int),
            None => first_index_from(strings_view(keys@), wanted@, 0) is None,
        },
{
    let mut i: usize = 0;
    while i < keys.len()
        invariant
            i <= keys.len(),
            first_index_from(strings_view(keys@), wanted@, 0) == first_index_from(
                strings_view(keys@),
                wanted@,
                i as int,
            ),
        decreases keys.len() - i,
    {
        if keys[i] == *wanted {
            return Some(i);
        }
        i += 1;
    }
    None
}

/// What the entry at `at` gives: its bytes, or why there are none.
pub fn lookup(entries: &[Entry], at: Option<usize>) -> (r: Result<Vec<u8>, LookupError>)
    requires
        at is Some ==> at.unwrap() < entries@.len(),
    ensures
        outcome_view(r) == lookup_spec(
            entries_view(entries@),
            match at {
                Some(i) => Some(i as int),
                None => None,
            },
        ),
{
    match at {
        None => Err(LookupError::Missing),
        Some(i) => match &entries[i].data {
            Some(d) => Ok(slice_to_vec(d.as_slice())),
            None => Err(LookupError::NotData),
        },
    }
}

/// First position at which `keys` holds `wanted` lies inside `keys`.
pub proof fn lemma_first_index_in_range(keys: Seq<Seq<char>>, wanted: Seq<char>, from: int)
    requires
        0 <= from,
    ensures
        first_index_from(keys, wanted, from) is Some ==> {
            let i = first_index_from(keys, wanted, from).unwrap();
            &&& from <= i < keys.len()
            &&& keys[i] == wanted
            &&& forall|j: int| from <= j < i ==> keys[j] != wanted
        },
        first_index_from(keys, wanted, from) is None ==> forall|j: int|
            from <= j < keys.len() ==> keys[j] != wanted,
    decreases keys.len() - from,
{
    if from < keys.len() && keys[from] != wanted {
        lemma_first_index_in_range(keys, wanted, from + 1);
    }
}

/// Looks for the panic data in a dictionary, comparing keys without regard
/// to case.
pub fn find_panic_info(entries: &[Entry]) -> (r: Result<Vec<u8>, LookupError>)
    ensures
        outcome_view(r) == find_panic_info_spec(entries_view(entries@)),
{
    let mut lowered: Vec<String> = Vec::new();
    let mut i: usize = 0;
    while i < entries.len()
        invariant
            i <= entries.len(),
            lowered@.len() == i,
            forall|j: int| 0 <= j < i ==> (#[trigger] lowered@[j])@ == lowercase(entries@[j].key@),
        decreases entries.len() - i,
    {
        lowered.push(to_lowercase(entries[i].key.as_str()));
        i += 1;
    }
    let wanted = String::from_str("aapl,panic-info");
    assert(strings_view(lowered@) =~= lowered_keys(entries_view(entries@)));
    let at = first_match(lowered.as_slice(), &wanted);
    proof {
        lemma_first_index_in_range(lowered_keys(entries_view(entries@)), panic_info_key(), 0);
    }
    lookup(entries, at)
}

/// Looks for the panic data in a dictionary under the key as it is written.
pub fn find_exact(entries: &[Entry]) -> (r: Result<Vec<u8>, LookupError>)
    ensures
        outcome_view(r) == find_exact_spec(entries_view(entries@)),
{
    let mut keys: Vec<String> = Vec::new();
    let mut i: usize = 0;
    while i < entries.len()
        invariant
            i <= entries.len(),
            keys@.len() == i,
            forall|j: int| 0 <= j < i ==> (#[trigger] keys@[j])@ == entries@[j].key@,
        decreases entries.len() - i,
    {
        keys.push(String::from_str(entries[i].key.as_str()));
        i += 1;
    }
    let wanted = String::from_str("aapl,panic-info");
    assert(strings_view(keys@) =~= keys_of(entries_view(entries@)));
    let at = first_match(keys.as_slice(), &wanted);
    proof {
        lemma_first_index_in_range(keys_of(entries_view(entries@)), panic_info_key(), 0);
    }
    lookup(entries, at)
}

/// The file's content as a value.
pub open spec fn file_input_view(r: Result<FileInput, LookupError>) -> Result<
    Seq<u8>,
    LookupError,
> {
    match r {
        Ok(input) => Ok(input.data@),
        Err(e) => Err(e),
    }
}

/// What a file gives, once it has been parsed or has failed to parse: the
/// panic data of its dictionary, or, where it is no property list, the
/// file's own bytes with the parser's words as a warning.
pub fn select_input(parsed: Result<Vec<Entry>, String>, bytes: Vec<u8>) -> (r: Result<
    FileInput,
    LookupError,
>)
    ensures
        match parsed {
            Ok(entries) => file_input_view(r) == find_panic_info_spec(entries_view(entries@)) && (
            r is Ok ==> r.unwrap().warning is None),
            Err(text) => r is Ok && r.unwrap().data@ == bytes@ && r.unwrap().warning == Some(text),
        },
{
    match parsed {
        Ok(entries) => match find_panic_info(entries.as_slice()) {
            Ok(data) => Ok(FileInput { data, warning: None }),
            Err(e) => Err(e),
        },
        Err(text) => Ok(FileInput { data: bytes, warning: Some(text) }),
    }
}

/// What the output of `nvram -x aapl,panic-info` gives, once it has been
/// parsed or has failed to parse: the panic data, if the output is a
/// dictionary that holds it as binary data under the key as it is written.
pub fn select_nvram_output(parsed: Option<Vec<Entry>>) -> (data: Option<Vec<u8>>)
    ensures
        match parsed {
            Some(entries) => match find_exact_spec(entries_view(entries@)) {
                Ok(d) => data is Some && data.unwrap()@ == d,
                Err(_) => data is None,
            },
            None => data is None,
        },
{
    match parsed {
        Some(entries) => match find_exact(entries.as_slice()) {
            Ok(data) => Some(data),
            Err(_) => None,
        },
        None => None,
    }
}

} // verus!
