use greeting_core::notes::{NoteFilter, AMMONIA_FILTERED_KEYS_LIMIT};

#[test]
fn a_clean_note_needs_no_replacement() {
    let mut filter = NoteFilter::new();
    assert_eq!(filter.get_filtered_note("hello world"), None);
    assert_eq!(filter.get_filtered_note(""), None);
    assert_eq!(filter.len(), 2);
}

#[test]
fn unsafe_markup_is_removed() {
    let mut filter = NoteFilter::new();
    assert_eq!(
        filter.get_filtered_note("XSS<script>attack</script>"),
        Some("XSS".to_string())
    );
    assert_eq!(
        filter.get_filtered_note("<b onclick=\"steal()\">bold</b>"),
        Some("<b>bold</b>".to_string())
    );
    assert_eq!(filter.get_filtered_note("a < b"), Some("a &lt; b".to_string()));
}

#[test]
fn a_remembered_note_gets_the_same_answer() {
    let mut filter = NoteFilter::new();
    let first = filter.get_filtered_note("<i>x</i><script>y</script>");
    let second = filter.get_filtered_note("<i>x</i><script>y</script>");
    assert_eq!(first, Some("<i>x</i>".to_string()));
    assert_eq!(second, first);
    assert_eq!(filter.get_filtered_note("plain"), None);
    assert_eq!(filter.get_filtered_note("plain"), None);
    assert_eq!(filter.len(), 2);
}

#[test]
fn the_older_half_is_forgotten_over_the_limit() {
    let mut filter = NoteFilter::new();
    for i in 0..AMMONIA_FILTERED_KEYS_LIMIT {
        assert_eq!(filter.get_filtered_note(&format!("note {}", i)), None);
    }
    assert_eq!(filter.len(), AMMONIA_FILTERED_KEYS_LIMIT);
    assert_eq!(filter.get_filtered_note("one more"), None);
    assert_eq!(filter.len(), AMMONIA_FILTERED_KEYS_LIMIT + 1 - AMMONIA_FILTERED_KEYS_LIMIT / 2);
    // a note that is still remembered adds nothing
    assert_eq!(filter.get_filtered_note("note 8000"), None);
    assert_eq!(filter.len(), 4097);
    // a forgotten one is cleaned and remembered again
    assert_eq!(filter.get_filtered_note("note 0"), None);
    assert_eq!(filter.len(), 4098);
    assert_eq!(AMMONIA_FILTERED_KEYS_LIMIT, 8192);
}
