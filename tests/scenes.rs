use wifblink::button::ButtonPress;
use wifblink::lights::LightChange;
use wifblink::scene::{
    enter, Action, CurrentScene, MenuOption, MenuScene, SceneEvent, SniffingScene, StartupScene,
};

fn sniffing() -> CurrentScene {
    CurrentScene::Sniffing(SniffingScene {})
}

#[test]
fn startup_sweeps_then_enters_sniffing() {
    let mut scene = CurrentScene::Startup(StartupScene {});
    assert_eq!(scene.enter(), vec![Action::AllOff]);
    assert_eq!(
        scene.tick(),
        vec![
            Action::Wait(100),
            Action::Light(LightChange::White(true)),
            Action::Wait(200),
            Action::Light(LightChange::Yellow(true)),
            Action::Wait(200),
            Action::Light(LightChange::Green(true)),
            Action::Wait(200),
            Action::Light(LightChange::Blue(true)),
            Action::Wait(400),
            Action::AllOff,
            Action::Enter(sniffing()),
        ]
    );
    assert_eq!(scene.button_press(), Vec::new());
    assert_eq!(scene.long_press(), Vec::new());
}

#[test]
fn sniffing_follows_button_and_opens_menu() {
    let mut scene = sniffing();
    assert_eq!(scene.button_down(), vec![Action::Light(LightChange::White(true))]);
    assert_eq!(scene.button_up(), vec![Action::Light(LightChange::White(false))]);
    assert_eq!(scene.tick(), vec![Action::Wait(2)]);
    assert_eq!(
        scene.long_press(),
        vec![Action::Enter(CurrentScene::Menu(MenuScene { current: MenuOption::Sniff, is_on: true }))]
    );
    assert_eq!(scene.handle_event(SceneEvent::Button(ButtonPress::Single)), Vec::new());
}

#[test]
fn menu_cycles_blinks_and_picks() {
    let mut scene = CurrentScene::Menu(MenuScene::new(MenuOption::Sniff));
    assert_eq!(
        scene.tick(),
        vec![Action::AllOff, Action::Light(LightChange::White(true)), Action::Wait(400)]
    );
    assert_eq!(
        scene.tick(),
        vec![Action::AllOff, Action::Light(LightChange::White(false)), Action::Wait(400)]
    );
    assert_eq!(scene.button_press(), vec![Action::AllOff]);
    assert_eq!(scene, CurrentScene::Menu(MenuScene { current: MenuOption::Erase, is_on: true }));
    scene.handle_event(SceneEvent::Button(ButtonPress::Single));
    scene.handle_event(SceneEvent::Button(ButtonPress::Single));
    scene.handle_event(SceneEvent::Button(ButtonPress::Single));
    assert_eq!(scene, CurrentScene::Menu(MenuScene { current: MenuOption::Sniff, is_on: true }));
    scene.handle_event(SceneEvent::Button(ButtonPress::Single));
    let picked = scene.long_press();
    let on = Action::Light(LightChange::Yellow(true));
    let off = Action::Light(LightChange::Yellow(false));
    let wait = Action::Wait(100);
    assert_eq!(
        picked,
        vec![
            on, wait, off, wait, on, wait, off, wait, on, wait, off, wait,
            Action::Enter(sniffing()),
        ]
    );
}

#[test]
fn scene_change_replaces_the_scene() {
    let mut scene = CurrentScene::Startup(StartupScene {});
    assert_eq!(scene.handle_event(SceneEvent::Change(sniffing())), Vec::new());
    assert_eq!(scene, sniffing());
    assert_eq!(enter(sniffing()), vec![Action::Enter(sniffing())]);
    assert_eq!(scene.leave(), Vec::new());
}
