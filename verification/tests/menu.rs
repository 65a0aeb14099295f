//! The workbench menu: the catalog, the profile switch, and the selection.

use promptforge_workshop::menu::{
    any_chat, first_model_id, models_contain, CatalogBus, CatalogModel, MenuBus, MenuRefusal,
    SwitchOutcome,
};

fn model(id: &str) -> CatalogModel {
    CatalogModel {
        id: Some(id.to_owned()),
        chat: true,
    }
}

fn embedding(id: &str) -> CatalogModel {
    CatalogModel {
        id: Some(id.to_owned()),
        chat: false,
    }
}

fn menu_with(memory: &[(&str, &str)]) -> MenuBus {
    MenuBus::new(
        CatalogBus::new(),
        memory
            .iter()
            .map(|(profile, id)| ((*profile).to_owned(), (*id).to_owned()))
            .collect(),
        Some("state.json".to_owned()),
    )
}

#[test]
fn the_newest_push_is_retained_for_the_connect_snapshot() {
    let mut bus = CatalogBus::new();
    assert!(bus.latest().is_none(), "an untouched bus has no snapshot");
    bus.publish(vec![model("old")]);
    bus.publish(vec![model("new")]);
    let latest = bus.latest().expect("the bus retains the newest push");
    assert_eq!(
        latest[0].id.as_deref(),
        Some("new"),
        "a session connecting now snapshots the newest catalog"
    );
}

#[test]
fn a_selection_outside_the_catalog_is_refused() {
    let mut menu = menu_with(&[]);
    menu.push_models_catalog(vec![model("m"), embedding("e")]);
    match menu.set_selected("ghost") {
        Err(MenuRefusal::UnknownModel { id }) => assert_eq!(id, "ghost"),
        other => panic!("an unknown model is refused: {other:?}"),
    }
    assert!(
        menu.set_selected("e").is_err(),
        "a model that cannot chat is not selectable"
    );
    let refusal = MenuRefusal::UnknownModel { id: "a\"b".to_owned() };
    assert_eq!(
        refusal.to_string(),
        "unknown model \"a\\\"b\": not in the current catalog"
    );
}

#[test]
fn a_selection_is_remembered_for_the_active_profile() {
    let mut menu = menu_with(&[]);
    menu.push_models_catalog(vec![model("m"), model("n")]);
    assert_eq!(
        menu.set_selected("m").expect("a catalog model is selected"),
        None,
        "without an active profile there is nothing to remember"
    );
    menu.set_profiles(vec!["p".to_owned()], Some("p".to_owned()));
    let pending = menu
        .set_selected("n")
        .expect("a catalog model is selected")
        .expect("the choice is remembered");
    assert_eq!(pending.path, "state.json");
    let written: serde_json::Value =
        serde_json::from_slice(&pending.bytes).expect("the state file is JSON");
    assert_eq!(written["last_selected"]["p"], "n");
    assert_eq!(
        menu.latest().expect("every mutation publishes").selected_model.as_deref(),
        Some("n")
    );
}

#[test]
fn a_switch_is_single_flight_and_selects_for_its_target() {
    let mut menu = menu_with(&[("q", "n")]);
    menu.push_models_catalog(vec![model("m"), model("n")]);
    menu.set_profiles(vec!["p".to_owned(), "q".to_owned()], Some("p".to_owned()));
    menu.begin_switch("q").expect("no switch runs yet");
    match menu.begin_switch("p") {
        Err(MenuRefusal::SwitchInProgress { name }) => assert_eq!(name, "q"),
        other => panic!("a second switch is refused: {other:?}"),
    }
    assert_eq!(
        MenuRefusal::SwitchInProgress { name: "q".to_owned() }.to_string(),
        "a switch to \"q\" is already in progress"
    );
    menu.finish_switch(SwitchOutcome::Completed);
    let latest = menu.latest().expect("a finished switch publishes");
    assert_eq!(latest.active.as_deref(), Some("q"));
    assert_eq!(latest.switching, None);
    assert_eq!(latest.selected_model.as_deref(), Some("n"), "the remembered model");

    menu.begin_switch("p").expect("the slot is free again");
    menu.finish_switch(SwitchOutcome::Failed);
    let latest = menu.latest().expect("a failed switch publishes");
    assert_eq!(latest.active.as_deref(), Some("q"), "the old profile still serves");
}

#[test]
fn a_restore_takes_the_remembered_model_or_the_first_and_is_idempotent() {
    let mut menu = menu_with(&[("p", "n")]);
    menu.push_models_catalog(vec![embedding("e"), model("m"), model("n")]);
    menu.set_profiles(vec!["p".to_owned()], Some("p".to_owned()));
    menu.restore_selection();
    let once = menu.latest().expect("a restore publishes");
    assert_eq!(once.selected_model.as_deref(), Some("n"));
    menu.restore_selection();
    assert_eq!(menu.latest(), Some(once));

    let mut menu = menu_with(&[("p", "gone")]);
    menu.push_models_catalog(vec![embedding("e"), model("m")]);
    menu.set_profiles(vec!["p".to_owned()], Some("p".to_owned()));
    menu.restore_selection();
    assert_eq!(
        menu.latest().expect("a restore publishes").selected_model.as_deref(),
        Some("m"),
        "a model that left the catalog falls back to the first"
    );
}

#[test]
fn a_selection_that_leaves_the_catalog_is_cleared() {
    let mut menu = menu_with(&[]);
    menu.push_models_catalog(vec![model("m")]);
    menu.set_selected("m").expect("a catalog model is selected");
    menu.push_models_catalog(vec![model("n")]);
    assert_eq!(
        menu.latest().expect("a changed menu publishes").selected_model,
        None
    );
}

#[test]
fn chat_is_ready_only_with_a_model_a_gateway_and_no_switch() {
    let mut menu = menu_with(&[]);
    menu.push_models_catalog(vec![model("m")]);
    menu.set_selected("m").expect("a catalog model is selected");
    assert!(!menu.snapshot().chat_ready, "the gateway is not reachable yet");
    menu.set_gateway_reachable(true);
    assert!(menu.snapshot().chat_ready);
    menu.begin_switch("p").expect("no switch runs yet");
    assert!(!menu.snapshot().chat_ready);
    menu.finish_switch(SwitchOutcome::Failed);
    menu.set_gateway_reachable(false);
    assert!(!menu.snapshot().chat_ready);
    let published = menu.take_published();
    assert!(!published.is_empty());
    assert!(menu.take_published().is_empty(), "published once each");
}

#[test]
fn lookups_see_chat_models_alone() {
    let models = vec![
        embedding("e"),
        CatalogModel { id: None, chat: true },
        model("m"),
    ];
    assert!(models_contain(&models, "m"));
    assert!(!models_contain(&models, "e"));
    assert_eq!(first_model_id(&models).as_deref(), Some("m"));
    assert!(any_chat(&models));
    assert!(!any_chat(&vec![embedding("e")]));
}
