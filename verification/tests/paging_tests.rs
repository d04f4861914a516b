use cmish::error::CmisError;
use cmish::paging::{PageReader, PageStep};

#[test]
fn full_pages_ask_for_more_and_short_page_ends() {
    let mut reader: PageReader<u32> = PageReader::new();
    match reader.add_page(vec![1, 2], 0, 2) {
        PageStep::Next { skip_count, progress } => {
            assert_eq!(skip_count, 2);
            assert_eq!(progress, 2);
        }
        _ => panic!("a full page is not the last"),
    }
    match reader.add_page(vec![3, 4], 2, 2) {
        PageStep::Next { skip_count, .. } => assert_eq!(skip_count, 4),
        _ => panic!("a full page is not the last"),
    }
    assert!(matches!(reader.add_page(vec![5], 4, 2), PageStep::Done));
    assert!(!reader.has_error());
    let items = reader.collect(|x| x * 10).ok().unwrap();
    assert_eq!(items, vec![10, 20, 30, 40, 50]);
}

#[test]
fn empty_page_ends_reading() {
    let mut reader: PageReader<u32> = PageReader::new();
    assert!(matches!(reader.add_page(vec![], 0, 5), PageStep::Done));
    assert_eq!(reader.collect(|x| x).ok().unwrap(), Vec::<u32>::new());
}

#[test]
fn error_wins_over_pages() {
    let mut reader: PageReader<u32> = PageReader::new();
    let _ = reader.add_page(vec![1], 0, 1);
    reader.set_error(CmisError::Other("boom".to_string()));
    assert!(reader.has_error());
    let err = reader.collect(|x| x).err().unwrap();
    assert_eq!(err.message(), "boom");
}

#[test]
fn pages_of_several_queries_accumulate() {
    let mut reader: PageReader<&str> = PageReader::new();
    let _ = reader.add_page(vec!["a"], 0, 10);
    let _ = reader.add_page(vec!["b", "c"], 0, 10);
    assert_eq!(reader.collect(|x| x.to_string()).ok().unwrap(), vec!["a", "b", "c"]);
}

#[test]
fn responses_are_read_until_a_short_page() {
    let mut reader: PageReader<u32> = PageReader::new();
    let mut skip_count = 0;
    let answers = vec![vec![1, 2, 3], vec![4, 5, 6], vec![7]];
    let mut asked = vec![];
    for answer in answers {
        asked.push(skip_count);
        match reader.read_response(Ok(answer), skip_count, 3) {
            PageStep::Next { skip_count: next, progress } => {
                assert_eq!(progress, 3);
                skip_count = next;
            }
            PageStep::Done => break,
            PageStep::Failed => panic!("no request failed"),
        }
    }
    assert_eq!(asked, vec![0, 3, 6]);
    assert_eq!(reader.collect(|x| x).ok().unwrap(), vec![1, 2, 3, 4, 5, 6, 7]);
}

#[test]
fn failed_response_stops_reading() {
    let mut reader: PageReader<u32> = PageReader::new();
    assert!(matches!(reader.read_response(Ok(vec![1, 2]), 0, 2), PageStep::Next { skip_count: 2, .. }));
    let step = reader.read_response(Err(CmisError::Other("timeout".to_string())), 2, 2);
    assert!(matches!(step, PageStep::Failed));
    assert!(reader.has_error());
    let step = reader.read_response(Ok(vec![3]), 2, 2);
    assert!(matches!(step, PageStep::Failed));
    assert_eq!(reader.collect(|x| x).err().unwrap().message(), "timeout");
}

#[test]
fn two_queries_read_into_one_reader_keep_order_and_duplicates() {
    let mut reader: PageReader<&str> = PageReader::new();
    assert!(matches!(reader.read_response(Ok(vec!["a", "b"]), 0, 2), PageStep::Next { skip_count: 2, .. }));
    assert!(matches!(reader.read_response(Ok(vec!["c"]), 2, 2), PageStep::Done));
    assert!(matches!(reader.read_response(Ok(vec!["b"]), 0, 2), PageStep::Done));
    assert_eq!(reader.collect(|x| x).ok().unwrap(), vec!["a", "b", "c", "b"]);
}
