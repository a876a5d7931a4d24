use penrose::contrib::actions::xrandr_commands;
use penrose::contrib::extensions::dmenu::{trim, DMenu, DMenuConfig, MenuMatch};
use penrose::contrib::extensions::notify_send::{
    error_notification_args, notify_send_args, NotifyConfig, NotifyLevel,
};
use penrose::contrib::hooks::{ClientSpawnRules, DefaultWorkspace, RemoveEmptyWorkspaces, SpawnRule};
use penrose::contrib::layouts::{dwindle_recurisive, paper};
use penrose::draw::Color;
use penrose::wm::client::Client;
use penrose::wm::data_types::{Region, RelativePosition};
use penrose::{Error, PenroseError};

fn client(id: u32) -> Client {
    Client::new(id, 0, false, true, None, None, None, None, None, None)
}

#[test]
fn dmenu_flags_name_the_colors_and_screen() {
    let config = DMenuConfig::default();
    assert_eq!(
        config.flags("run", 1),
        vec!["-l", "10", "-nb", "#282828", "-nf", "#ebdbb2", "-sb", "#458588", "-m", "1", "-p", "run"]
    );
    let config = DMenuConfig { password_input: true, n_lines: 0, ..DMenuConfig::default() };
    assert_eq!(
        config.flags("", 0),
        vec!["-l", "0", "-nb", "#282828", "-nf", "#ebdbb2", "-sb", "#458588", "-m", "0", "-P"]
    );
}

#[test]
fn dmenu_input_has_one_line_per_choice() {
    let choices = vec!["a".to_string(), "bb".to_string(), "c".to_string()];
    let menu = DMenu::new(">".to_string(), choices.clone(), DMenuConfig::default());
    assert_eq!(menu.menu_input(), "a\nbb\nc");
    let numbered = DMenuConfig { show_line_numbers: true, ..DMenuConfig::default() };
    let menu = DMenu::new(">".to_string(), choices, numbered);
    assert_eq!(menu.menu_input(), "0   a\n1   bb\n2   c");
}

#[test]
fn dmenu_answers_are_matched_to_choices() {
    let choices = vec!["a".to_string(), "bb".to_string(), "bb".to_string()];
    let menu = DMenu::new(">".to_string(), choices.clone(), DMenuConfig::default());
    assert!(matches!(menu.match_choice(" \n"), MenuMatch::NoMatch));
    match menu.match_choice("bb\n") {
        MenuMatch::Line(i, s) => {
            assert_eq!(i, 1);
            assert_eq!(s, "bb");
        }
        other => panic!("unexpected: {:?}", other),
    }
    match menu.match_choice("  typed  ") {
        MenuMatch::UserInput(s) => assert_eq!(s, "typed"),
        other => panic!("unexpected: {:?}", other),
    }
    let numbered = DMenuConfig { show_line_numbers: true, ..DMenuConfig::default() };
    let menu = DMenu::new(">".to_string(), choices, numbered);
    assert!(matches!(menu.match_choice("2   bb"), MenuMatch::Line(2, _)));
}

#[test]
fn trimming_follows_str_trim() {
    assert_eq!(trim("  a b \t\n"), "a b");
    assert_eq!(trim("   "), "");
    assert_eq!(trim("x"), "x");
}

#[test]
fn notifications_carry_level_duration_title_and_body() {
    assert_eq!(NotifyLevel::Critical.as_text(), "critical");
    assert_eq!(
        notify_send_args("t".to_string(), "b".to_string(), NotifyConfig::default()),
        vec!["-u", "normal", "-t", "5000", "t", "b"]
    );
    let e = Error::UnknownKeyName { name: "Foo".to_string() };
    assert_eq!(
        error_notification_args(&e),
        vec!["-u", "critical", "-t", "10000", "Unhandled Error", "'Foo' is not a known key name"]
    );
}

#[test]
fn colors_print_as_rgb_hex() {
    let c = Color::from(0x282828ffu32);
    assert_eq!(c.rgb_u32(), 0x282828);
    assert_eq!(c.as_rgb_hex_string(), "#282828");
    assert_eq!(Color::from(0x00ff00ffu32).as_rgb_hex_string(), "#ff00");
}

const XRANDR: &str = "Screen 0: minimum 8 x 8, current 3840 x 1080\neDP-1 connected primary 1920x1080+0+0\nHDMI-1 disconnected (normal left inverted right x axis y axis)\nDP-1 connected 1920x1080+1920+0\n";

#[test]
fn xrandr_commands_follow_the_secondary_status() {
    let cmds = xrandr_commands(XRANDR, "eDP-1", "HDMI-1", RelativePosition::Right).unwrap();
    assert_eq!(cmds, vec!["xrandr --output eDP-1 --primary --auto", "xrandr --output HDMI-1 --off"]);
    let cmds = xrandr_commands(XRANDR, "eDP-1", "DP-1", RelativePosition::Left).unwrap();
    assert_eq!(
        cmds,
        vec!["xrandr --output eDP-1 --primary --auto", "xrandr --output DP-1 --auto --left-of eDP-1"]
    );
}

#[test]
fn xrandr_errors() {
    match xrandr_commands(XRANDR, "eDP-1", "VGA-1", RelativePosition::Above) {
        Err(PenroseError::Raw(m)) => assert_eq!(m, "unable to find secondary monitor in xrandr output"),
        other => panic!("unexpected: {:?}", other),
    }
    match xrandr_commands("VGA-1\n", "eDP-1", "VGA-1", RelativePosition::Above) {
        Err(PenroseError::Raw(m)) => assert_eq!(m, "unexpected xrandr output"),
        other => panic!("unexpected: {:?}", other),
    }
}

#[test]
fn dwindle_halves_the_region_for_each_client() {
    let (a, b, c) = (client(1), client(2), client(3));
    let clients = vec![&a, &b, &c];
    let r = Region::new(0, 0, 1000, 800);
    assert_eq!(
        dwindle_recurisive(&clients, &r, true, 50),
        vec![
            (1, Some(Region::new(500, 400, 500, 400))),
            (2, Some(Region::new(500, 0, 500, 400))),
            (3, Some(Region::new(0, 0, 500, 800))),
        ]
    );
    assert_eq!(
        dwindle_recurisive(&clients, &Region::new(0, 0, 40, 800), true, 50),
        vec![(1, Some(Region::new(0, 0, 40, 800))), (2, None), (3, None)]
    );
    assert!(dwindle_recurisive(&[], &r, true, 50).is_empty());
}

#[test]
fn paper_fans_out_the_clients() {
    let (a, b, c) = (client(1), client(2), client(3));
    let clients = vec![&a, &b, &c];
    let r = Region::new(0, 0, 1000, 800);
    assert_eq!(
        paper(&clients, Some(2), &r, 600),
        vec![
            (1, Some(Region::new(0, 0, 200, 800))),
            (2, Some(Region::new(200, 0, 600, 800))),
            (3, Some(Region::new(800, 0, 200, 800))),
        ]
    );
    assert_eq!(paper(&[&a], None, &r, 600), vec![(1, Some(r))]);
}

#[test]
fn workspace_hooks_decide_on_names() {
    let d = DefaultWorkspace::new("web".to_string(), "[mono]".to_string(), vec!["firefox".to_string()]);
    assert!(d.applies_to("web", true));
    assert!(!d.applies_to("web", false));
    assert!(!d.applies_to("dev", true));
    let r = RemoveEmptyWorkspaces::new(vec!["1".to_string(), "2".to_string()]);
    assert!(r.removes("3", true));
    assert!(!r.removes("2", true));
    assert!(!r.removes("3", false));
}

#[test]
fn spawn_rules_prefer_the_class() {
    let rules = ClientSpawnRules::new(vec![
        SpawnRule::ClassName("xterm", 3),
        SpawnRule::WMName("vim", 4),
        SpawnRule::ClassName("xterm", 5),
    ]);
    assert_eq!(rules.workspace_for("xterm", "vim"), Some(5));
    assert_eq!(rules.workspace_for("st", "vim"), Some(4));
    assert_eq!(rules.workspace_for("st", "emacs"), None);
}
