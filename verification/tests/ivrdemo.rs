use asterisk_apps::ivrdemo::{AppIvrDemo, IvrAction, IvrMenu, IvrOption};
use asterisk_apps::DialplanApp;

#[test]
fn test_ivr_menu() {
    let menu = IvrMenu {
        name: "main".to_string(),
        prompt: "welcome".to_string(),
        options: vec![
            IvrOption {
                digit: '1',
                description: "Option 1".to_string(),
                action: IvrAction::Playback("digits/1".to_string()),
            },
            IvrOption {
                digit: '#',
                description: "Exit".to_string(),
                action: IvrAction::Exit,
            },
        ],
    };
    assert_eq!(menu.options.len(), 2);
}

#[test]
fn test_ivr_demo_name() {
    assert_eq!(AppIvrDemo.name(), "IVRDemo");
    assert_eq!(AppIvrDemo.description(), "IVR Demo application skeleton");
}
