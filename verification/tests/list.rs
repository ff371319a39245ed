use changelogging::list::reversed;

#[test]
fn turns_lists_round() {
    assert_eq!(reversed(vec![1, 2, 3]), vec![3, 2, 1]);
    assert_eq!(reversed(vec!["a".to_owned()]), vec!["a".to_owned()]);
    assert_eq!(reversed(Vec::<u8>::new()), Vec::<u8>::new());
}
