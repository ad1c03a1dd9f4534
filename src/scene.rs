//! The user interface as a state machine of scenes. Each handler updates the
//! scene and returns the actions the scene task then carries out in order:
//! light changes, waits, and requests to move to another scene.
use vstd::prelude::*;
use crate::button::ButtonPress;
use crate::lights::{change_of, light, Color, LightChange};

verus! {

/// The scene shown at power-on: a sweep through the lights.
#[derive(Clone, Copy, Debug, PartialEq, Eq, Structural)]
pub struct StartupScene {}

/// The scene while names are being captured; the white light follows the
/// button.
#[derive(Clone, Copy, Debug, PartialEq, Eq, Structural)]
pub struct SniffingScene {}

/// An entry of the menu.
#[derive(Clone, Copy, Debug, PartialEq, Eq, Structural)]
pub enum MenuOption {
    Bluetooth,
    Sleep,
    Erase,
    Sniff,
}

/// The menu: a short press moves to the next entry, a long press picks it;
/// the light of the current entry blinks.
#[derive(Clone, Copy, Debug, PartialEq, Eq, Structural)]
pub struct MenuScene {
    pub current: MenuOption,
    /// Whether the next tick switches the entry's light on.
    pub is_on: bool,
}

/// The scene on show.
#[derive(Clone, Copy, Debug, PartialEq, Eq, Structural)]
pub enum CurrentScene {
    Startup(StartupScene),
    Sniffing(SniffingScene),
    Menu(MenuScene),
}

/// One step for the scene task to carry out.
#[derive(Clone, Copy, Debug, PartialEq, Eq, Structural)]
pub enum Action {
    /// Switch every light off.
    AllOff,
    /// Make one light change.
    Light(LightChange),
    /// Wait this many milliseconds.
    Wait(u64),
    /// Ask to move to this scene.
    Enter(CurrentScene),
}

/// What reaches the scene task besides its own ticks.
#[derive(Clone, Copy, Debug, PartialEq, Eq, Structural)]
pub enum SceneEvent {
    /// Another scene was asked for.
    Change(CurrentScene),
    /// The button did something.
    Button(ButtonPress),
}

/// The light that stands for a menu entry.
pub open spec fn color_of(option: MenuOption) -> Color {
    match option {
        MenuOption::Sniff => Color::White,
        MenuOption::Erase => Color::Yellow,
        MenuOption::Sleep => Color::Green,
        MenuOption::Bluetooth => Color::Blue,
    }
}

/// The menu entry after `option`, going round.
pub open spec fn next_option(option: MenuOption) -> MenuOption {
    match option {
        MenuOption::Sniff => MenuOption::Erase,
        MenuOption::Erase => MenuOption::Sleep,
        MenuOption::Sleep => MenuOption::Bluetooth,
        MenuOption::Bluetooth => MenuOption::Sniff,
    }
}

/// The sniffing scene as an entry of `Action::Enter`.
pub open spec fn sniffing() -> CurrentScene {
    CurrentScene::Sniffing(SniffingScene {})
}

/// The power-on sweep: each light in turn, then all off, then sniffing.
pub open spec fn startup_sweep() -> Seq<Action> {
    seq![
        Action::Wait(100),
        Action::Light(LightChange::White(true)),
        Action::Wait(200),
        Action::Light(LightChange::Yellow(true)),
        Action::Wait(200),
        Action::Light(LightChange::Green(true)),
        Action::Wait(200),
        Action::Light(LightChange::Blue(true)),
        Action::Wait(400),
        Action::AllOff,
        Action::Enter(sniffing()),
    ]
}

/// Three blinks of `color`: on, wait, off, wait, three times over.
pub open spec fn blinks(color: Color) -> Seq<Action> {
    Seq::new(
        12,
        |k: int|
            if k % 2 == 0 {
                Action::Light(change_of(color, (k / 2) % 2 == 0))
            } else {
                Action::Wait(100)
            },
    )
}

/// What a short press asks of `scene`.
pub open spec fn short_press_actions(scene: CurrentScene) -> Seq<Action> {
    match scene {
        CurrentScene::Menu(_) => seq![Action::AllOff],
        _ => seq![],
    }
}

/// The scene after a short press.
pub open spec fn after_short_press(scene: CurrentScene) -> CurrentScene {
    match scene {
        CurrentScene::Menu(m) => CurrentScene::Menu(
            MenuScene { current: next_option(m.current), is_on: m.is_on },
        ),
        other => other,
    }
}

/// What a long press asks of `scene`.
pub open spec fn long_press_actions(scene: CurrentScene) -> Seq<Action> {
    match scene {
        CurrentScene::Startup(_) => seq![],
        CurrentScene::Sniffing(_) => seq![
            Action::Enter(CurrentScene::Menu(MenuScene { current: MenuOption::Sniff, is_on: true })),
        ],
        CurrentScene::Menu(m) => blinks(color_of(m.current)).push(Action::Enter(sniffing())),
    }
}

/// What the button going down (`true`) or up (`false`) asks of `scene`.
pub open spec fn edge_actions(scene: CurrentScene, down: bool) -> Seq<Action> {
    match scene {
        CurrentScene::Sniffing(_) => seq![Action::Light(LightChange::White(down))],
        _ => seq![],
    }
}

/// The light of a menu entry.
pub fn option_color(option: MenuOption) -> (r: Color)
    ensures
        r == color_of(option),
{
    match option {
        MenuOption::Sniff => Color::White,
        MenuOption::Erase => Color::Yellow,
        MenuOption::Sleep => Color::Green,
        MenuOption::Bluetooth => Color::Blue,
    }
}

/// A scene to begin with.
pub fn enter(scene: CurrentScene) -> (r: Vec<Action>)
    ensures
        r@ == seq![Action::Enter(scene)],
{
    let mut r: Vec<Action> = Vec::new();
    r.push(Action::Enter(scene));
    r
}

fn all_off() -> (r: Vec<Action>)
    ensures
        r@ == seq![Action::AllOff],
{
    let mut r: Vec<Action> = Vec::new();
    r.push(Action::AllOff);
    r
}

impl StartupScene {
    /// Entering switches every light off.
    pub fn enter(&self) -> (r: Vec<Action>)
        ensures
            r@ == seq![Action::AllOff],
    {
        all_off()
    }

    /// The power-on sweep, after which capture begins.
    pub fn tick(&mut self) -> (r: Vec<Action>)
        ensures
            r@ == startup_sweep(),
    {
        let mut r: Vec<Action> = Vec::new();
        r.push(Action::Wait(100));
        r.push(Action::Light(LightChange::White(true)));
        r.push(Action::Wait(200));
        r.push(Action::Light(LightChange::Yellow(true)));
        r.push(Action::Wait(200));
        r.push(Action::Light(LightChange::Green(true)));
        r.push(Action::Wait(200));
        r.push(Action::Light(LightChange::Blue(true)));
        r.push(Action::Wait(400));
        r.push(Action::AllOff);
        r.push(Action::Enter(CurrentScene::Sniffing(SniffingScene {})));
        assert(r@ =~= startup_sweep());
        r
    }
}

impl SniffingScene {
    /// The white light comes on while the button is down.
    pub fn button_down(&mut self) -> (r: Vec<Action>)
        ensures
            r@ == seq![Action::Light(LightChange::White(true))],
    {
        let mut r: Vec<Action> = Vec::new();
        r.push(Action::Light(LightChange::White(true)));
        r
    }

    /// The white light goes off when the button comes up.
    pub fn button_up(&mut self) -> (r: Vec<Action>)
        ensures
            r@ == seq![Action::Light(LightChange::White(false))],
    {
        let mut r: Vec<Action> = Vec::new();
        r.push(Action::Light(LightChange::White(false)));
        r
    }

    /// A long press opens the menu on its capture entry, light on.
    pub fn long_press(&mut self) -> (r: Vec<Action>)
        ensures
            r@ == seq![Action::Enter(CurrentScene::Menu(MenuScene { current: MenuOption::Sniff, is_on: true }))],
    {
        enter(CurrentScene::Menu(MenuScene { current: MenuOption::Sniff, is_on: true }))
    }

    /// Entering switches every light off.
    pub fn enter(&self) -> (r: Vec<Action>)
        ensures
            r@ == seq![Action::AllOff],
    {
        all_off()
    }

    /// Capture runs elsewhere; the scene only waits a little.
    pub fn tick(&mut self) -> (r: Vec<Action>)
        ensures
            r@ == seq![Action::Wait(2)],
    {
        let mut r: Vec<Action> = Vec::new();
        r.push(Action::Wait(2));
        r
    }
}

impl MenuScene {
    /// The menu on `current`, its light about to come on.
    pub fn new(current: MenuOption) -> (r: MenuScene)
        ensures
            r.current == current,
            r.is_on,
    {
        MenuScene { current, is_on: true }
    }

    /// Entering switches every light off.
    pub fn enter(&self) -> (r: Vec<Action>)
        ensures
            r@ == seq![Action::AllOff],
    {
        all_off()
    }

    /// A long press picks the entry: its light blinks three times and
    /// capture resumes.
    pub fn long_press(&mut self) -> (r: Vec<Action>)
        ensures
            *final(self) == *old(self),
            r@ == blinks(color_of(old(self).current)).push(Action::Enter(sniffing())),
    {
        let color = option_color(self.current);
        let mut r: Vec<Action> = Vec::new();
        let mut i: u64 = 0;
        while i <= 5
            invariant
                i <= 6,
                color == color_of(self.current),
                r@ =~= blinks(color).subrange(0, 2 * i as int),
            decreases 6 - i,
        {
            if i % 2 == 0 {
                r.push(Action::Light(light(color, true)));
            } else {
                r.push(Action::Light(light(color, false)));
            }
            r.push(Action::Wait(100));
            i += 1;
            assert(r@ =~= blinks(color).subrange(0, 2 * i as int));
        }
        r.push(Action::Enter(CurrentScene::Sniffing(SniffingScene {})));
        assert(blinks(color).subrange(0, 12) =~= blinks(color));
        r
    }

    /// A short press moves to the next entry, with every light off.
    pub fn button_press(&mut self) -> (r: Vec<Action>)
        ensures
            final(self).current == next_option(old(self).current),
            final(self).is_on == old(self).is_on,
            r@ == seq![Action::AllOff],
    {
        self.current = match self.current {
            MenuOption::Sniff => MenuOption::Erase,
            MenuOption::Erase => MenuOption::Sleep,
            MenuOption::Sleep => MenuOption::Bluetooth,
            MenuOption::Bluetooth => MenuOption::Sniff,
        };
        all_off()
    }

    /// One blink phase: lights off, the entry's light set on or off by
    /// turns, then a wait.
    pub fn tick(&mut self) -> (r: Vec<Action>)
        ensures
            final(self).current == old(self).current,
            final(self).is_on == !old(self).is_on,
            r@ == seq![
                Action::AllOff,
                Action::Light(change_of(color_of(old(self).current), old(self).is_on)),
                Action::Wait(400),
            ],
    {
        let mut r: Vec<Action> = Vec::new();
        r.push(Action::AllOff);
        let color = option_color(self.current);
        r.push(Action::Light(light(color, self.is_on)));
        self.is_on = !self.is_on;
        r.push(Action::Wait(400));
        r
    }
}

impl CurrentScene {
    /// One run of the scene's own activity.
    pub fn tick(&mut self) -> (r: Vec<Action>)
        ensures
            *old(self) matches CurrentScene::Startup(_) ==> r@ == startup_sweep() && *final(self) == *old(self),
            *old(self) matches CurrentScene::Sniffing(_) ==> r@ == seq![Action::Wait(2)] && *final(self) == *old(self),
            *old(self) matches CurrentScene::Menu(m) ==> r@ == seq![
                Action::AllOff,
                Action::Light(change_of(color_of(m.current), m.is_on)),
                Action::Wait(400),
            ] && *final(self) == CurrentScene::Menu(MenuScene { current: m.current, is_on: !m.is_on }),
    {
        match self {
            CurrentScene::Startup(scene) => scene.tick(),
            CurrentScene::Sniffing(scene) => scene.tick(),
            CurrentScene::Menu(scene) => scene.tick(),
        }
    }

    /// A short press: only the menu reacts.
    pub fn button_press(&mut self) -> (r: Vec<Action>)
        ensures
            *old(self) matches CurrentScene::Menu(m) ==> r@ == seq![Action::AllOff]
                && *final(self) == CurrentScene::Menu(MenuScene { current: next_option(m.current), is_on: m.is_on }),
            !(*old(self) is Menu) ==> r@.len() == 0 && *final(self) == *old(self),
    {
        match self {
            CurrentScene::Menu(scene) => scene.button_press(),
            _ => Vec::new(),
        }
    }

    /// The button went down: only the sniffing scene reacts.
    pub fn button_down(&mut self) -> (r: Vec<Action>)
        ensures
            *final(self) == *old(self),
            *old(self) is Sniffing ==> r@ == seq![Action::Light(LightChange::White(true))],
            !(*old(self) is Sniffing) ==> r@.len() == 0,
    {
        match self {
            CurrentScene::Sniffing(scene) => scene.button_down(),
            _ => Vec::new(),
        }
    }

    /// The button came up: only the sniffing scene reacts.
    pub fn button_up(&mut self) -> (r: Vec<Action>)
        ensures
            *final(self) == *old(self),
            *old(self) is Sniffing ==> r@ == seq![Action::Light(LightChange::White(false))],
            !(*old(self) is Sniffing) ==> r@.len() == 0,
    {
        match self {
            CurrentScene::Sniffing(scene) => scene.button_up(),
            _ => Vec::new(),
        }
    }

    /// A long press: sniffing opens the menu, the menu picks its entry.
    pub fn long_press(&mut self) -> (r: Vec<Action>)
        ensures
            *final(self) == *old(self),
            *old(self) is Startup ==> r@.len() == 0,
            *old(self) is Sniffing ==> r@ == seq![
                Action::Enter(CurrentScene::Menu(MenuScene { current: MenuOption::Sniff, is_on: true })),
            ],
            *old(self) matches CurrentScene::Menu(m) ==> r@ == blinks(color_of(m.current)).push(
                Action::Enter(sniffing()),
            ),
    {
        match self {
            CurrentScene::Startup(_) => Vec::new(),
            CurrentScene::Sniffing(scene) => scene.long_press(),
            CurrentScene::Menu(scene) => scene.long_press(),
        }
    }

    /// Entering any scene switches every light off.
    pub fn enter(&self) -> (r: Vec<Action>)
        ensures
            r@ == seq![Action::AllOff],
    {
        match self {
            CurrentScene::Startup(scene) => scene.enter(),
            CurrentScene::Sniffing(scene) => scene.enter(),
            CurrentScene::Menu(scene) => scene.enter(),
        }
    }

    /// Leaving a scene asks for nothing.
    pub fn leave(&self) -> (r: Vec<Action>)
        ensures
            r@.len() == 0,
    {
        Vec::new()
    }

    /// Reacts to an event: a requested scene replaces this one once this one
    /// has been left; a button event goes to the scene's handler for it.
    pub fn handle_event(&mut self, event: SceneEvent) -> (r: Vec<Action>)
        ensures
            event matches SceneEvent::Change(next) ==> *final(self) == next && r@.len() == 0,
            event matches SceneEvent::Button(ButtonPress::Single) ==> r@ == short_press_actions(*old(self))
                && *final(self) == after_short_press(*old(self)),
            event matches SceneEvent::Button(ButtonPress::Long) ==> r@ == long_press_actions(*old(self))
                && *final(self) == *old(self),
            event matches SceneEvent::Button(ButtonPress::Down) ==> r@ == edge_actions(*old(self), true)
                && *final(self) == *old(self),
            event matches SceneEvent::Button(ButtonPress::Up) ==> r@ == edge_actions(*old(self), false)
                && *final(self) == *old(self),
    {
        match event {
            SceneEvent::Change(next) => {
                let r = self.leave();
                *self = next;
                r
            },
            SceneEvent::Button(ButtonPress::Single) => {
                let r = self.button_press();
                assert(r@ =~= short_press_actions(*old(self)));
                r
            },
            SceneEvent::Button(ButtonPress::Long) => {
                let r = self.long_press();
                assert(r@ =~= long_press_actions(*old(self)));
                r
            },
            SceneEvent::Button(ButtonPress::Down) => {
                let r = self.button_down();
                assert(r@ =~= edge_actions(*old(self), true));
                r
            },
            SceneEvent::Button(ButtonPress::Up) => {
                let r = self.button_up();
                assert(r@ =~= edge_actions(*old(self), false));
                r
            },
        }
    }
}

} // verus!
