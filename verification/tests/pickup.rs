use asterisk_apps::pickup::{
    parse_pickup_targets, AppPickup, AppPickupChan, PickupChanOptions, PickupMethod,
    PICKUP_MARK_CONTEXT,
};
use asterisk_apps::DialplanApp;

#[test]
fn test_parse_pickup_targets_empty() {
    let targets = parse_pickup_targets("", "default");
    assert_eq!(targets, vec![PickupMethod::Group]);
}

#[test]
fn test_parse_pickup_targets_extension() {
    let targets = parse_pickup_targets("100", "default");
    assert_eq!(
        targets,
        vec![PickupMethod::Extension {
            extension: "100".to_string(),
            context: "default".to_string(),
        }]
    );
}

#[test]
fn test_parse_pickup_targets_extension_context() {
    let targets = parse_pickup_targets("100@internal", "default");
    assert_eq!(
        targets,
        vec![PickupMethod::Extension {
            extension: "100".to_string(),
            context: "internal".to_string(),
        }]
    );
}

#[test]
fn test_parse_pickup_targets_mark() {
    let targets = parse_pickup_targets("sales@PICKUPMARK", "default");
    assert_eq!(targets, vec![PickupMethod::Mark("sales".to_string())]);
}

#[test]
fn test_parse_pickup_targets_multiple() {
    let targets = parse_pickup_targets("100@internal&200@sales", "default");
    assert_eq!(targets.len(), 2);
}

#[test]
fn test_pickupchan_options() {
    let opts = PickupChanOptions::parse("p");
    assert!(opts.partial_match);
}

#[test]
fn test_parse_pickup_targets_edges() {
    let targets = parse_pickup_targets(" 7@ & & m@pickupmark ", "ctx");
    assert_eq!(
        targets,
        vec![
            PickupMethod::Extension { extension: "7".to_string(), context: "ctx".to_string() },
            PickupMethod::Mark("m".to_string()),
        ]
    );
    assert_eq!(parse_pickup_targets(" & ", "ctx"), vec![]);
    assert_eq!(PICKUP_MARK_CONTEXT, "PICKUPMARK");
}

#[test]
fn test_pickupchan_request() {
    assert!(AppPickupChan::request("  ,p").is_none());
    let (names, opts) = AppPickupChan::request(" SIP/a & & SIP/b , p").unwrap();
    assert_eq!(names, vec!["SIP/a", "SIP/b"]);
    assert!(opts.partial_match);
    let (_, opts) = AppPickupChan::request("SIP/a").unwrap();
    assert!(!opts.partial_match);
    assert_eq!(AppPickup.name(), "Pickup");
    assert_eq!(AppPickupChan.name(), "PickupChan");
}
