use my_oapp::options::EnforcedOptions;

#[test]
fn enforced_options_come_first() {
    let o = EnforcedOptions { send: vec![1, 2], send_and_call: vec![9] };
    assert_eq!(o.combine_options(&None, &[3]).unwrap(), vec![1, 2, 3]);
    assert_eq!(o.combine_options(&Some(vec![7, 8]), &[3, 4]).unwrap(), vec![1, 2, 7, 8, 3, 4]);
    assert_eq!(o.combine_options(&Some(vec![]), &[]).unwrap(), vec![1, 2]);
}
