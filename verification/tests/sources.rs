use panic_info::input::{
    find_exact, find_panic_info, first_match, lookup, select_input, select_nvram_output, Entry,
    FileInput, LookupError,
};
use panic_info::nvram::{read_from_nvram, variable_name, NvramReader, Step, Variable};

fn plist_with(key: &str, value: &str) -> Vec<u8> {
    format!(
        "<?xml version=\"1.0\" encoding=\"UTF-8\"?>\n<plist version=\"1.0\">\n<dict>\n<key>other</key>\n<string>x</string>\n<key>{}</key>\n{}\n</dict>\n</plist>\n",
        key, value
    )
    .into_bytes()
}

fn parse(bytes: &[u8]) -> Result<Vec<Entry>, String> {
    let dict: plist::Dictionary = plist::from_bytes(bytes).map_err(|e| e.to_string())?;
    Ok(dict
        .iter()
        .map(|(key, value)| Entry { key: key.clone(), data: value.as_data().map(<[u8]>::to_vec) })
        .collect())
}

fn from_file_bytes(bytes: Vec<u8>) -> Result<FileInput, LookupError> {
    select_input(parse(&bytes), bytes)
}

fn from_nvram_output(bytes: &[u8]) -> Option<Vec<u8>> {
    select_nvram_output(parse(bytes).ok())
}

fn entry(key: &str, data: Option<&[u8]>) -> Entry {
    Entry { key: key.to_string(), data: data.map(<[u8]>::to_vec) }
}

#[test]
fn variable_names() {
    assert_eq!(variable_name(Variable::Whole), "aapl,panic-info");
    assert_eq!(variable_name(Variable::Part(0)), "AAPL,PanicInfo0000");
    assert_eq!(variable_name(Variable::Part(1)), "AAPL,PanicInfo0001");
    assert_eq!(variable_name(Variable::Part(0x1a)), "AAPL,PanicInfo001a");
    assert_eq!(variable_name(Variable::Part(0xbeef)), "AAPL,PanicInfobeef");
    assert_eq!(variable_name(Variable::Part(0xffff)), "AAPL,PanicInfoffff");
    assert_eq!(variable_name(Variable::Part(0x0900)), "AAPL,PanicInfo0900");
}

#[test]
fn whole_variable_is_the_buffer() {
    let answers = vec![Some(vec![7, 0, 0, 0, 1, 2, 3]), Some(vec![7, 0, 0, 0, 9])];
    assert_eq!(read_from_nvram(4, &answers), Some(vec![1, 2, 3]));
    assert_eq!(read_from_nvram(0, &answers), Some(vec![7, 0, 0, 0, 1, 2, 3]));
    // A whole variable that holds its header and nothing else is still an answer.
    assert_eq!(read_from_nvram(4, &[Some(vec![7, 0, 0, 0])]), Some(vec![]));
}

#[test]
fn pieces_are_joined_in_order() {
    let answers = vec![
        None,
        Some(vec![7, 0, 0, 0, 1, 2]),
        Some(vec![7, 0, 0, 0]),
        Some(vec![7, 0, 0, 0, 3]),
        None,
        Some(vec![7, 0, 0, 0, 4]),
    ];
    assert_eq!(read_from_nvram(4, &answers), Some(vec![1, 2, 3]));
    assert_eq!(read_from_nvram(4, &answers[..2]), Some(vec![1, 2]));
}

#[test]
fn no_variable_no_buffer() {
    assert_eq!(read_from_nvram(4, &[]), None);
    assert_eq!(read_from_nvram(4, &[None]), None);
    assert_eq!(read_from_nvram(4, &[None, None, Some(vec![0, 0, 0, 0, 1])]), None);
    assert_eq!(read_from_nvram(4, &[None, Some(vec![0, 0, 0, 0])]), None);
}

#[test]
fn reader_asks_for_one_variable_at_a_time() {
    let reader = NvramReader::new(4);
    assert_eq!(reader.wanted(), Variable::Whole);
    assert_eq!(reader.header_len(), 4);
    let reader = match reader.answer(None) {
        Step::Read(next) => next,
        Step::Done(_) => panic!("the pieces were not asked for"),
    };
    assert_eq!(reader.wanted(), Variable::Part(0));
    let reader = match reader.answer(Some(&[0, 0, 0, 0, 5, 6])) {
        Step::Read(next) => next,
        Step::Done(_) => panic!("the second piece was not asked for"),
    };
    assert_eq!(reader.wanted(), Variable::Part(1));
    match reader.answer(None) {
        Step::Read(_) => panic!("reading went on after a missing piece"),
        Step::Done(data) => assert_eq!(data, Some(vec![5, 6])),
    }
}

#[test]
fn reader_stops_at_the_whole_variable() {
    match NvramReader::new(0).answer(Some(&[1, 2, 3])) {
        Step::Read(_) => panic!("reading went on after the whole variable"),
        Step::Done(data) => assert_eq!(data, Some(vec![1, 2, 3])),
    }
}

#[test]
fn first_match_finds_the_first() {
    let keys = vec!["b".to_string(), "a".to_string(), "a".to_string()];
    assert_eq!(first_match(&keys, &"a".to_string()), Some(1));
    assert_eq!(first_match(&keys, &"b".to_string()), Some(0));
    assert_eq!(first_match(&keys, &"c".to_string()), None);
    assert_eq!(first_match(&[], &"a".to_string()), None);
}

#[test]
fn lookup_tells_the_outcomes_apart() {
    let entries = vec![entry("k", Some(&[1, 2])), entry("s", None)];
    assert_eq!(lookup(&entries, Some(0)), Ok(vec![1, 2]));
    assert_eq!(lookup(&entries, Some(1)), Err(LookupError::NotData));
    assert_eq!(lookup(&entries, None), Err(LookupError::Missing));
}

#[test]
fn key_is_found_without_regard_to_case() {
    let entries = vec![entry("other", Some(&[9])), entry("AAPL,Panic-Info", Some(&[1, 2, 3]))];
    assert_eq!(find_panic_info(&entries), Ok(vec![1, 2, 3]));
    assert_eq!(find_exact(&entries), Err(LookupError::Missing));
    let entries = vec![entry("aapl,panic-info", Some(&[4]))];
    assert_eq!(find_panic_info(&entries), Ok(vec![4]));
    assert_eq!(find_exact(&entries), Ok(vec![4]));
    let entries = vec![entry("Aapl,Panic-Info", None), entry("aapl,panic-info", Some(&[4]))];
    assert_eq!(find_panic_info(&entries), Err(LookupError::NotData));
    assert_eq!(find_exact(&entries), Ok(vec![4]));
    assert_eq!(find_panic_info(&[]), Err(LookupError::Missing));
}

#[test]
fn plist_file_gives_its_data() {
    let input = from_file_bytes(plist_with("AAPL,Panic-Info", "<data>AQID</data>")).unwrap();
    assert_eq!(input.data, vec![1, 2, 3]);
    assert!(input.warning.is_none());
}

#[test]
fn plist_file_without_the_key() {
    let r = from_file_bytes(plist_with("something", "<data>AQID</data>"));
    assert_eq!(r.unwrap_err(), LookupError::Missing);
}

#[test]
fn plist_file_with_the_key_of_another_type() {
    let r = from_file_bytes(plist_with("aapl,panic-info", "<string>AQID</string>"));
    assert_eq!(r.unwrap_err(), LookupError::NotData);
}

#[test]
fn file_that_is_no_plist_is_the_buffer() {
    let bytes = vec![0x41, 0x21, 0x11];
    let input = from_file_bytes(bytes.clone()).unwrap();
    assert_eq!(input.data, bytes);
    assert!(input.warning.is_some());
    assert!(!input.warning.unwrap().is_empty());
}

#[test]
fn select_input_keeps_the_parsers_words() {
    let input = select_input(Err("bad".to_string()), vec![1, 2]).unwrap();
    assert_eq!(input.data, vec![1, 2]);
    assert_eq!(input.warning, Some("bad".to_string()));
    let input = select_input(Ok(vec![entry("AAPL,PANIC-INFO", Some(&[3]))]), vec![1, 2]).unwrap();
    assert_eq!(input.data, vec![3]);
    assert_eq!(input.warning, None);
    assert_eq!(select_input(Ok(vec![]), vec![1, 2]).unwrap_err(), LookupError::Missing);
}

#[test]
fn select_nvram_output_wants_the_key_as_written() {
    assert_eq!(select_nvram_output(None), None);
    assert_eq!(select_nvram_output(Some(vec![])), None);
    assert_eq!(
        select_nvram_output(Some(vec![entry("x", Some(&[1])), entry("aapl,panic-info", Some(&[2, 3]))])),
        Some(vec![2, 3])
    );
    assert_eq!(select_nvram_output(Some(vec![entry("AAPL,Panic-Info", Some(&[2]))])), None);
    assert_eq!(select_nvram_output(Some(vec![entry("aapl,panic-info", None)])), None);
}

#[test]
fn nvram_output_gives_its_data() {
    assert_eq!(
        from_nvram_output(&plist_with("aapl,panic-info", "<data>AQID</data>")),
        Some(vec![1, 2, 3])
    );
    assert_eq!(from_nvram_output(&plist_with("AAPL,Panic-Info", "<data>AQID</data>")), None);
    assert_eq!(from_nvram_output(&plist_with("aapl,panic-info", "<true/>")), None);
    assert_eq!(from_nvram_output(b"not a property list"), None);
}
