use discord_bot::html::NestedNode;
use discord_bot::ssh::{
    argument_reply, classify_arg, host_status_of, hosts_overflow_in, parse_host_args,
    scrape_host_statuses, ssh_target, ssh_usage, HostArg,
};

fn args(v: &[&str]) -> Vec<String> {
    v.iter().map(|s| s.to_string()).collect()
}

#[test]
fn classify_arguments() {
    assert!(matches!(classify_arg("3"), HostArg::Single(3)));
    assert!(matches!(classify_arg("+3"), HostArg::Single(3)));
    assert!(matches!(classify_arg("2:5"), HostArg::Range(2, 5)));
    assert!(matches!(classify_arg("5:2"), HostArg::Range(2, 5)));
    assert!(matches!(classify_arg("1:2:3"), HostArg::Invalid));
    assert!(matches!(classify_arg("a:2"), HostArg::Invalid));
    assert!(matches!(classify_arg(":"), HostArg::Invalid));
    assert!(matches!(classify_arg("x"), HostArg::Invalid));
}

#[test]
fn hosts_from_arguments() {
    assert_eq!(parse_host_args(&args(&["1", "3:5", "9"])), Some(vec![1, 3, 4, 5, 9]));
    assert_eq!(parse_host_args(&args(&["7:4"])), Some(vec![4, 5, 6, 7]));
    assert_eq!(parse_host_args(&args(&["2:2"])), Some(vec![2]));
    assert_eq!(parse_host_args(&args(&[])), Some(vec![]));
    assert_eq!(parse_host_args(&args(&["1", "bad", "3"])), None);
}

#[test]
fn reversed_range_same_hosts() {
    assert_eq!(parse_host_args(&args(&["10:12"])), parse_host_args(&args(&["12:10"])));
}

#[test]
fn overflowing_range_is_detected() {
    assert!(hosts_overflow_in(&args(&["1", "5:4294967295"])));
    assert!(!hosts_overflow_in(&args(&["bad", "5:4294967295"])));
    assert!(!hosts_overflow_in(&args(&["5:4294967294"])));
}

#[test]
fn replies_and_target() {
    assert_eq!(argument_reply(&vec![1, 2, 3]), format!("Argument test! {:?}", vec![1u32, 2, 3]));
    assert_eq!(argument_reply(&vec![]), "Argument test! []");
    assert_eq!(ssh_target("host", ".example.org"), "host1.example.org:22");
    assert_eq!(ssh_usage(), "Argument Error! Usage: ssh <num1>, <num2>,... or <num1>:<num2>");
}

#[test]
fn status_of_entries() {
    let up = NestedNode { attr: Some("list-group-item success".to_string()), inner_attr: Some(Some("#icon-linux".to_string())) };
    let s = host_status_of(&up);
    assert!(s.status);
    assert_eq!(s.kind, "\"#icon-linux\"");
    let down = NestedNode { attr: Some("list-group-item danger".to_string()), inner_attr: None };
    let s = host_status_of(&down);
    assert!(!s.status);
    assert_eq!(s.kind, "NULL");
}

#[test]
fn status_page() {
    let html = r##"<html><body>
        <div class="col-sm"><ul>
          <li class="item success"><svg><use href="#win"></use></svg></li>
          <li class="item danger"></li>
        </ul></div>
        <div class="col-sm"><ul><li class="item success"></li></ul></div>
        </body></html>"##;
    let v = scrape_host_statuses(html).expect("readable page");
    assert_eq!(v.len(), 2);
    assert!(v[0].status);
    assert_eq!(v[0].kind, "\"#win\"");
    assert!(!v[1].status);
    assert_eq!(v[1].kind, "NULL");
}

#[test]
fn unreadable_status_pages() {
    assert!(scrape_host_statuses("<p>nothing</p>").is_none());
    assert!(scrape_host_statuses(r#"<div class="col-sm"><li>no class</li></div>"#).is_none());
    assert!(scrape_host_statuses(r#"<div class="col-sm"><li class="success">no icon</li></div>"#).is_none());
}
