use folsum::sort_counts;

fn counted(pairs: &[(&str, u32)]) -> Vec<(String, u32)> {
    pairs.iter().map(|(extension, count)| (extension.to_string(), *count)).collect()
}

#[test]
fn counts_come_most_frequent_first() {
    let extension_counts = counted(&[("txt", 1), ("rs", 30), ("py", 5), ("md", 12)]);
    assert_eq!(
        sort_counts(&extension_counts),
        counted(&[("rs", 30), ("md", 12), ("py", 5), ("txt", 1)])
    );
}

#[test]
fn equal_counts_come_alphabetically() {
    let extension_counts =
        counted(&[("zip", 3), ("rs", 3), ("py", 5), ("md", 3), ("txt", 1), ("a", 5)]);
    assert_eq!(
        sort_counts(&extension_counts),
        counted(&[("a", 5), ("py", 5), ("md", 3), ("rs", 3), ("zip", 3), ("txt", 1)])
    );
}

#[test]
fn alphabetical_is_by_character_and_then_by_length() {
    let extension_counts =
        counted(&[("rss", 1), ("rs", 1), ("", 1), ("Rs", 1), ("é", 1), ("z", 1)]);
    assert_eq!(
        sort_counts(&extension_counts),
        counted(&[("", 1), ("Rs", 1), ("rs", 1), ("rss", 1), ("z", 1), ("é", 1)])
    );
}

#[test]
fn sorting_keeps_every_count() {
    let extension_counts = counted(&[("b", 2), ("a", 2), ("b", 2), ("a", 7)]);
    assert_eq!(sort_counts(&extension_counts), counted(&[("a", 7), ("a", 2), ("b", 2), ("b", 2)]));
    assert_eq!(sort_counts(&vec![]), vec![]);
    assert_eq!(extension_counts.len(), 4);
}

#[test]
fn distinct_extensions_have_one_order() {
    let extension_counts = counted(&[("b", 2), ("c", 2), ("a", 2), ("d", 9)]);
    let mut shuffled = extension_counts.clone();
    shuffled.reverse();
    let expected = counted(&[("d", 9), ("a", 2), ("b", 2), ("c", 2)]);
    assert_eq!(sort_counts(&extension_counts), expected);
    assert_eq!(sort_counts(&shuffled), expected);
    let sorted = sort_counts(&extension_counts);
    for pair in sorted.windows(2) {
        assert!(pair[0].1 > pair[1].1 || (pair[0].1 == pair[1].1 && pair[0].0 < pair[1].0));
    }
}
