use dev_suite::suite::{
    build_name, download_url, installed_name, label, program, selected_tools, Platform, Tools,
};

#[test]
fn the_boxes_stand_for_the_tools() {
    assert_eq!(selected_tools(&vec![0, 1]), vec![Tools::Hooked, Tools::Ticket]);
    assert_eq!(selected_tools(&vec![1]), vec![Tools::Ticket]);
    assert_eq!(selected_tools(&Vec::new()), Vec::<Tools>::new());
    assert_eq!(label(Tools::Hooked), "hooked - Managed git hooks");
    assert_eq!(label(Tools::Ticket), "ticket - In repo tickets");
    assert_eq!(program(Tools::Hooked), "hooked");
    assert_eq!(program(Tools::Ticket), "ticket");
}

#[test]
fn a_build_is_named_after_tool_and_system() {
    assert_eq!(build_name(Tools::Hooked, Platform::MacOs), "hooked_osx");
    assert_eq!(build_name(Tools::Ticket, Platform::Linux), "ticket_linux");
    assert_eq!(build_name(Tools::Ticket, Platform::Windows), "ticket_windows");
    assert_eq!(
        download_url("hooked_linux"),
        "https://dev-suite-spaces.nyc3.digitaloceanspaces.com/hooked_linux"
    );
}

#[test]
fn a_build_is_installed_under_the_name_before_the_underscore() {
    assert_eq!(installed_name("hooked_linux"), "hooked");
    assert_eq!(installed_name("ticket_osx_old"), "ticket");
    assert_eq!(installed_name("plain"), "plain");
    assert_eq!(installed_name("_x"), "");
    assert_eq!(installed_name(""), "");
    for name in ["hooked_linux", "a_b_c", "", "_", "none"] {
        assert_eq!(installed_name(name), name.split('_').nth(0).unwrap());
    }
}
