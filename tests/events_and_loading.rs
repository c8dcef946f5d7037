use bastel::components::audio::AudioComponent;
use bastel::components::collision::CollisionComponent;
use bastel::components::physics::PhysicsComponent;
use bastel::components::position::PositionComponent;
use bastel::components::sprite::{color_from_hex, decode_hex, SpriteComponent};
use bastel::components::Component;
use bastel::decimal::parse_fixed;
use bastel::engine::{Engine, EngineEvent, LoopControl};
use bastel::entity::{id_from_text, Entity};
use bastel::fixed::SCALE;
use bastel::global::{Global, Signal};
use bastel::markup::{attribute, text_is, SceneElement};
use bastel::shaders::Shader;
use bastel::systems::audio::{AudioCue, AudioSystem};
use bastel::systems::collision::CollisionSystem;
use bastel::systems::entities_well_formed;
use bastel::systems::input::InputSystem;
use bastel::viewport::{letterbox, Viewport};

fn pairs(items: &[(&str, &str)]) -> Vec<(String, String)> {
    items.iter().map(|(a, b)| (a.to_string(), b.to_string())).collect()
}

fn children(items: &[(&str, Option<&str>)]) -> Vec<(String, Option<String>)> {
    items.iter().map(|(a, b)| (a.to_string(), b.map(|s| s.to_string()))).collect()
}

#[test]
fn decimals_become_fixed_point() {
    assert_eq!(parse_fixed("0.45"), Some(450_000));
    assert_eq!(parse_fixed("-1.5"), Some(-1_500_000));
    assert_eq!(parse_fixed("+2"), Some(2_000_000));
    assert_eq!(parse_fixed(".5"), Some(500_000));
    assert_eq!(parse_fixed("5."), Some(5_000_000));
    assert_eq!(parse_fixed("1.2345678"), Some(1_234_567));
    assert_eq!(parse_fixed("-0.0000009"), Some(0));
    assert_eq!(parse_fixed("9223372036854.775807"), Some(i64::MAX));
    assert_eq!(parse_fixed("-9223372036854.775808"), Some(i64::MIN));
    assert_eq!(parse_fixed("9223372036854.775808"), None);
    assert_eq!(parse_fixed("99999999999999999999999"), None);
    assert_eq!(parse_fixed(""), None);
    assert_eq!(parse_fixed("."), None);
    assert_eq!(parse_fixed("-"), None);
    assert_eq!(parse_fixed("1e3"), None);
    assert_eq!(parse_fixed("1.2.3"), None);
    assert_eq!(parse_fixed("abc"), None);
}

#[test]
fn hexadecimal_colours() {
    assert_eq!(decode_hex("ff00aa"), Some(vec![255, 0, 170]));
    assert_eq!(decode_hex("FFa0"), Some(vec![255, 160]));
    assert_eq!(decode_hex("+f"), Some(vec![15]));
    assert_eq!(decode_hex(""), Some(vec![]));
    assert_eq!(decode_hex("#000000"), None);
    assert_eq!(decode_hex("abc"), None);
    assert_eq!(decode_hex("zz"), None);
    assert_eq!(color_from_hex("ff8000"), [255, 128, 0]);
    assert_eq!(color_from_hex("ff800012"), [255, 128, 0]);
    assert_eq!(color_from_hex("ff"), [0, 0, 0]);
    assert_eq!(color_from_hex("#ff8000"), [0, 0, 0]);
}

#[test]
fn identifiers_from_text() {
    assert_eq!(id_from_text(""), 0);
    assert_eq!(id_from_text("ab"), 195);
    assert_eq!(id_from_text("zzz"), 110);
}

#[test]
fn attribute_lookup() {
    let attrs = pairs(&[("x", "1"), ("y", "2"), ("x", "3")]);
    assert_eq!(attribute(&attrs, "x"), Some("3".to_string()));
    assert_eq!(attribute(&attrs, "z"), None);
    assert!(text_is("shader", "shader"));
    assert!(!text_is("shade", "shader"));
}

#[test]
fn components_from_attributes() {
    let pos = PositionComponent::from_xml(&pairs(&[
        ("x", "0.5"),
        ("y", "-0.25"),
        ("width", "0.1"),
        ("height", "2"),
    ]));
    assert_eq!(
        pos,
        Some(PositionComponent::new((500_000, -250_000), (100_000, 2_000_000)))
    );
    assert_eq!(
        PositionComponent::from_xml(&pairs(&[("x", "0.5"), ("y", "1"), ("width", "1")])),
        None
    );
    assert_eq!(
        PositionComponent::from_xml(&pairs(&[
            ("x", "one"),
            ("y", "1"),
            ("width", "1"),
            ("height", "1")
        ])),
        None
    );
    assert_eq!(
        PositionComponent::from_xml(&pairs(&[
            ("x", "0"),
            ("y", "0"),
            ("width", "-1"),
            ("height", "1")
        ])),
        None
    );
    assert_eq!(
        PositionComponent::from_xml(&pairs(&[
            ("x", "9223372036854"),
            ("y", "0"),
            ("width", "1"),
            ("height", "1")
        ])),
        None
    );
    let audio = AudioComponent::from_xml(&pairs(&[("bgm", "a.ogg"), ("muted", "no")]));
    assert_eq!(
        audio,
        Component::Audio(AudioComponent {
            muted: true,
            bgm: Some("a.ogg".to_string()),
            sfx: None
        })
    );
    assert_eq!(AudioComponent::from_xml(&vec![]), AudioComponent::new());
}

#[test]
fn sprite_from_children() {
    let kids = children(&[
        ("shader", Some("solid")),
        ("shader", Some("unknown")),
        ("color", Some("102030")),
        ("texture", Some("wall.png")),
    ]);
    assert_eq!(SpriteComponent::texture_path(&kids), Some("wall.png".to_string()));
    let sprite = SpriteComponent::from_xml(&kids, Some(vec![1, 2, 3]));
    assert_eq!(
        sprite,
        Component::Sprite(SpriteComponent {
            shader: Shader::Solid,
            color: [16, 32, 48],
            texture: Some(vec![1, 2, 3]),
        })
    );
    let plain = SpriteComponent::from_xml(&children(&[("shader", None)]), Some(vec![9]));
    assert_eq!(
        plain,
        Component::Sprite(SpriteComponent { shader: Shader::Rainbow, color: [0, 0, 0], texture: None })
    );
    assert_eq!(SpriteComponent::texture_path(&children(&[("texture", None)])), None);
}

#[test]
fn entity_from_elements() {
    let element = |tag: &str, attrs: Vec<(String, String)>| SceneElement {
        tag: tag.to_string(),
        attributes: attrs,
        children: vec![],
        texture: None,
    };
    let elements = vec![
        element("position", pairs(&[("x", "1"), ("y", "2"), ("width", "3"), ("height", "4"), ("id", "ab")])),
        element("physics", vec![]),
        element("unknown", pairs(&[("id", "zzz")])),
        element("position", pairs(&[("x", "1")])),
        SceneElement {
            tag: "sprite".to_string(),
            attributes: vec![],
            children: children(&[("texture", Some("t.png"))]),
            texture: Some(vec![7]),
        },
        element("audio", pairs(&[("bgm", "m.ogg")])),
    ];
    let e = Entity::from_xml(elements);
    assert_eq!(e.id, 110);
    assert_eq!(e.components.len(), 4);
    assert_eq!(e.components[0], PositionComponent::new((SCALE, 2 * SCALE), (3 * SCALE, 4 * SCALE)));
    assert_eq!(e.components[1], PhysicsComponent::from_xml());
    assert_eq!(
        e.components[2],
        Component::Sprite(SpriteComponent { shader: Shader::Rainbow, color: [0, 0, 0], texture: Some(vec![7]) })
    );
    assert_eq!(
        e.components[3],
        Component::Audio(AudioComponent { muted: false, bgm: Some("m.ogg".to_string()), sfx: None })
    );
    assert_eq!(Entity::from_xml(vec![]).id, 0);
}

#[test]
fn keys_write_direction_signals() {
    let mut global = Global::new(String::from("t"), (800, 600));
    let mut input = InputSystem::new();
    input.handle_input(103, true, &mut global);
    assert!(input.up);
    assert!(global.signals.get(Signal::UpPressed));
    input.handle_input(32, true, &mut global);
    assert!(global.signals.get(Signal::RightPressed));
    input.handle_input(17, false, &mut global);
    assert!(!input.up);
    assert!(!global.signals.get(Signal::UpPressed));
    input.handle_input(31, true, &mut global);
    input.handle_input(105, true, &mut global);
    assert!(global.signals.get(Signal::DownPressed));
    assert!(global.signals.get(Signal::LeftPressed));
    input.handle_input(57, true, &mut global);
    assert!(input.down && input.left && input.right && !input.up);
}

#[test]
fn cursor_and_click() {
    let mut global = Global::new(String::from("t"), (800, 600));
    let mut input = InputSystem::new();
    input.cursor_moved((600 * SCALE, 150 * SCALE), &global);
    assert_eq!(input.cursor, [500_000, -500_000]);
    assert!(input.is_valid_cursor_position());
    input.click(&mut global);
    assert_eq!(global.click, (500_000, -500_000));
    assert!(global.signals.get(Signal::Resize));

    global.signals.set(Signal::Resize, false);
    input.cursor_moved((900 * SCALE, 300 * SCALE), &global);
    assert_eq!(input.cursor, [1_250_000, 0]);
    assert!(!input.is_valid_cursor_position());
    input.click(&mut global);
    assert_eq!(global.click, (500_000, -500_000));
    assert!(!global.signals.get(Signal::Resize));

    global.view_origin = (100 * SCALE, 0);
    input.cursor_moved((600 * SCALE, 300 * SCALE), &global);
    assert_eq!(input.cursor, [666_666, 0]);

    global.view_size = (0, 600 * SCALE);
    input.cursor_moved((10 * SCALE, 0), &global);
    assert_eq!(input.cursor, [666_666, -SCALE]);
}

#[test]
fn audio_triggers_become_cues() {
    let mut global = Global::new(String::from("t"), (800, 600));
    let mut audio = AudioSystem::new(&mut global);
    assert!(global.signals.get(Signal::PlayBgm));
    global.signals.set(Signal::PlaySfx, true);
    let entities = vec![
        Entity::new(1, vec![Component::Audio(AudioComponent {
            muted: false,
            bgm: Some("music.ogg".to_string()),
            sfx: Some("hit.wav".to_string()),
        })]),
        Entity::new(2, vec![CollisionComponent::new()]),
        Entity::new(3, vec![
            Component::Audio(AudioComponent { muted: false, bgm: None, sfx: Some("jump.wav".to_string()) }),
            Component::Audio(AudioComponent { muted: false, bgm: Some("ignored.ogg".to_string()), sfx: None }),
        ]),
    ];
    let cues = audio.take_cues(&entities, &mut global);
    assert_eq!(
        cues,
        vec![
            AudioCue::Sfx("hit.wav".to_string()),
            AudioCue::Bgm("music.ogg".to_string()),
            AudioCue::Sfx("jump.wav".to_string()),
        ]
    );
    assert!(!global.signals.get(Signal::PlayBgm));
    assert!(!global.signals.get(Signal::PlaySfx));
    assert_eq!(audio.take_cues(&entities, &mut global), vec![]);
}

#[test]
fn signal_take_clears() {
    let mut global = Global::new(String::from("t"), (800, 600));
    global.window_resized(1024, 768);
    assert_eq!(global.window_size, (1024, 768));
    assert!(global.signals.take(Signal::Resize));
    assert!(!global.signals.take(Signal::Resize));
}

#[test]
fn engine_events() {
    let mut engine = Engine::new(String::from("game"), 800, 600);
    assert_eq!(engine.fps, 60);
    assert_eq!(engine.global.view_size, (800 * SCALE, 600 * SCALE));
    assert_eq!(engine.global.view_origin, (0, 0));
    assert!(!engine.global.signals.get(Signal::PlayBgm));
    assert_eq!(engine.frame_period_millis(), 16);
    engine.add_core_systems();
    assert_eq!(engine.scene.systems.len(), 3);
    engine.scene.add_entity(Entity::new(
        1,
        vec![
            bastel::components::moveable::MoveableComponent::new(),
            PositionComponent::new((0, 0), (SCALE, SCALE)),
            Component::Physics(PhysicsComponent::default()),
        ],
    ));
    assert_eq!(engine.handle_event(EngineEvent::Key { scancode: 106, pressed: true }), LoopControl::Wait);
    assert!(engine.global.signals.get(Signal::RightPressed));
    assert_eq!(engine.handle_event(EngineEvent::RedrawEventsCleared), LoopControl::Wait);
    // Physics runs before movement: the force waits in the accumulator.
    let e = &engine.scene.entities[0];
    assert_eq!(e.physics().unwrap().velocity, (0, 0));
    assert_eq!(e.physics().unwrap().acceleration, (1000, 0));
    engine.handle_event(EngineEvent::RedrawEventsCleared);
    let e = &engine.scene.entities[0];
    assert_eq!(e.physics().unwrap().velocity, (1000, 0));
    assert_eq!(e.position().unwrap().position, (1000, 0));
    engine.handle_event(EngineEvent::Resized(640, 480));
    assert_eq!(engine.global.window_size, (640, 480));
    assert!(engine.global.signals.get(Signal::Resize));
    engine.handle_event(EngineEvent::CursorMoved(400 * SCALE, 300 * SCALE));
    assert_eq!(engine.input.cursor, [0, 0]);
    engine.handle_event(EngineEvent::MouseReleased);
    assert_eq!(engine.global.click, (0, 0));
    assert_eq!(engine.handle_event(EngineEvent::Other), LoopControl::Wait);
    assert_eq!(engine.handle_event(EngineEvent::CloseRequested), LoopControl::Exit);
}

#[test]
fn malformed_entities_stop_the_frame() {
    let mut engine = Engine::new(String::from("game"), 800, 600);
    engine.add_core_systems();
    let mut bad = PhysicsComponent::default();
    bad.mass = 0;
    bad.velocity = (5, 0);
    engine.scene.add_entity(Entity::new(
        1,
        vec![PositionComponent::new((0, 0), (SCALE, SCALE)), Component::Physics(bad)],
    ));
    assert!(!entities_well_formed(&engine.scene.entities));
    assert!(!engine.scene.entities[0].is_well_formed());
    engine.handle_event(EngineEvent::RedrawEventsCleared);
    assert_eq!(engine.scene.entities[0].position().unwrap().position, (0, 0));

    let negative = Entity::new(2, vec![PositionComponent::new((0, 0), (-1, 1))]);
    assert!(!negative.is_well_formed());
    let fine = Entity::new(3, vec![PositionComponent::new((0, 0), (1, 1))]);
    assert!(fine.is_well_formed());
}

#[test]
fn overflowing_resolution_changes_nothing() {
    let b = PositionComponent { position: (5, 0), size: (10, 100) };
    let mut a = PositionComponent { position: (0, 0), size: (10, 100) };
    let mut phys = PhysicsComponent::default();
    phys.mass = i64::MAX;
    phys.velocity = (0, 1_000_000_000_000);
    let inter = [5, 10, 0, 100];
    CollisionSystem::new().handle_collision(&inter, &mut a, &mut phys, &b);
    assert_eq!(a.position, (0, 0));
    assert_eq!(phys.velocity, (0, 1_000_000_000_000));
    assert_eq!(phys.acceleration, (0, 0));

    let mut phys = PhysicsComponent::default();
    phys.velocity = (0, 1_000);
    CollisionSystem::new().handle_collision(&inter, &mut a, &mut phys, &b);
    assert_eq!(a.position, (-5, 0));
    assert_eq!(phys.acceleration, (0, -500));
}

#[test]
fn letterboxed_viewport() {
    assert_eq!(
        letterbox((800, 600), (800 * SCALE, 600 * SCALE)),
        Some(Viewport { dimensions: (800 * SCALE, 600 * SCALE), origin: (0, 0) })
    );
    assert_eq!(
        letterbox((1000, 600), (800 * SCALE, 600 * SCALE)),
        Some(Viewport { dimensions: (800 * SCALE, 600 * SCALE), origin: (100 * SCALE, 0) })
    );
    assert_eq!(
        letterbox((800, 800), (800 * SCALE, 600 * SCALE)),
        Some(Viewport { dimensions: (800 * SCALE, 600 * SCALE), origin: (0, 100 * SCALE) })
    );
    assert_eq!(
        letterbox((3, 1), (2, 1)),
        Some(Viewport { dimensions: (2 * SCALE, SCALE), origin: (SCALE / 2, 0) })
    );
    assert_eq!(letterbox((0, 600), (800 * SCALE, 600 * SCALE)), None);
    assert_eq!(letterbox((800, 600), (0, 600 * SCALE)), None);
}
