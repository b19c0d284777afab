use corona::audio::{AudioNode, NodeParam, NodeType, Props};
use corona::audio_state::{is_default_metadata, metadata_name, route_entry, unquote, AudioEvent, Command, RouteParam, NoSuchNode, PipewireAudio, PipewireState, Target};

fn props(entries: &[(&str, &str)]) -> Props {
    Props::new(entries.iter().map(|(k, v)| (k.to_string(), v.to_string())).collect())
}

fn sink() -> AudioNode {
    let props = props(&[
        ("object.serial", "62"),
        ("node.name", "alsa_output.speaker"),
        ("node.description", "Speaker"),
        ("node.nick", "Built-in"),
        ("device.id", "47"),
    ]);
    AudioNode::new(54, NodeType::Sink, &props).expect("the registry props are complete")
}

fn stream(id: u32, serial: u64) -> AudioNode {
    let props = props(&[("node.name", "spotify"), ("media.name", "Spotify")]);
    let mut node = AudioNode::new(id, NodeType::Stream, &props).expect("a stream needs a name");
    node.serial = serial;
    node
}

#[test]
fn info_fills_in_what_the_registry_left_out() {
    let info = props(&[
        ("node.name", "alsa_output.speaker"),
        ("node.description", "Speaker"),
        ("card.profile.device", "0"),
    ]);

    let mut sink = sink();
    assert_eq!(sink.profile_device, None);

    assert!(sink.update_props(&info));
    assert_eq!(sink.profile_device, Some(0));
    // Reported again unchanged, so no event is worth emitting.
    assert!(!sink.update_props(&info));
}

#[test]
fn a_rename_reaches_the_sink() {
    let renamed = props(&[("node.description", "Speaker (Dock)"), ("node.nick", "Dock")]);

    let mut sink = sink();

    assert!(sink.update_props(&renamed));
    assert_eq!(sink.description, "Speaker (Dock)");
    assert_eq!(sink.nickname.as_deref(), Some("Dock"));
    assert_eq!(sink.name, "alsa_output.speaker");
}

#[test]
fn a_stream_is_named_by_its_media_and_written_on_the_node() {
    let stream_props = props(&[
        ("object.serial", "202"),
        ("node.name", "spotify"),
        ("application.name", "spotify"),
        ("application.process.binary", ".spotify-wrapped"),
        ("media.name", "Spotify"),
        ("media.class", "Stream/Output/Audio"),
    ]);

    let stream =
        AudioNode::new(110, NodeType::Stream, &stream_props).expect("a stream needs only a node.name");

    assert_eq!(stream.description, "Spotify");
    assert_eq!(stream.app, ["spotify", ".spotify-wrapped"]);
    assert_eq!(stream.serial, 202);
    assert_eq!(stream.device, None);
    assert_eq!(stream.profile_device, None);
}

#[test]
fn a_narrower_info_event_clears_nothing() {
    let full = props(&[
        ("node.description", "Speaker"),
        ("node.nick", "Built-in"),
        ("card.profile.device", "0"),
    ]);
    let narrow = props(&[("node.name", "alsa_output.speaker")]);

    let mut sink = sink();
    sink.update_props(&full);

    assert!(!sink.update_props(&narrow));
    assert_eq!(sink.profile_device, Some(0));
    assert_eq!(sink.description, "Speaker");
    assert_eq!(sink.nickname.as_deref(), Some("Built-in"));
    assert_eq!(sink.device, Some(47));
}

#[test]
fn a_default_is_reported_once_per_change() {
    let mut audio = PipewireState::new().audio;
    let mut sent = 0;

    sent += audio.set_default(NodeType::Sink, Some("speaker".into())).len();
    // Wireplumber republishes the same value freely; that is not a change.
    sent += audio.set_default(NodeType::Sink, Some("speaker".into())).len();
    sent += audio.set_default(NodeType::Sink, Some("headset".into())).len();
    sent += audio.set_default(NodeType::Sink, None).len();

    assert_eq!(sent, 3);
    assert!(audio.defaults.is_empty());
}

#[test]
fn a_pin_resolves_by_either_name_or_serial() {
    let mut audio = PipewireState::new().audio;
    audio.nodes.insert(54, sink());
    audio.nodes.insert(110, stream(110, 202));
    audio.nodes.insert(111, stream(111, 203));

    audio.set_target(110, Some("alsa_output.speaker".into()));
    audio.set_target(111, Some("62".into()));

    let targets = audio.resolved_targets();
    assert_eq!(targets.get(&110), Some(&54));
    assert_eq!(targets.get(&111), Some(&54));
}

#[test]
fn removing_a_sink_clears_the_default_and_every_pin_naming_it() {
    let mut audio = PipewireState::new().audio;
    audio.nodes.insert(54, sink());
    audio.nodes.insert(110, stream(110, 202));
    audio.set_default(NodeType::Sink, Some("alsa_output.speaker".into()));
    audio.set_target(110, Some("alsa_output.speaker".into()));

    assert!(audio.default(NodeType::Sink).is_some());
    assert_eq!(audio.resolved_targets().get(&110), Some(&54));

    audio.nodes.remove(&54);

    assert!(audio.list(NodeType::Sink).is_empty());
    // The name is still pinned; it just no longer names anything that exists.
    assert!(audio.default(NodeType::Sink).is_none());
    assert!(audio.resolved_targets().is_empty());
}

#[test]
fn a_sink_change_projects_only_the_slices_it_can_move() {
    let audio = PipewireState::new().audio;
    audio.nodes.insert(54, sink());

    let events = audio.node_events(NodeType::Sink);
    assert_eq!(events.len(), 3);
    assert!(matches!(events[0], AudioEvent::Nodes(NodeType::Sink, _)));
    assert!(matches!(events[1], AudioEvent::DefaultSink(_)));
    assert!(matches!(events[2], AudioEvent::Targets(_)));

    let events = audio.node_events(NodeType::Source);
    assert_eq!(events.len(), 2);
    assert!(matches!(events[0], AudioEvent::Nodes(NodeType::Source, _)));
    assert!(matches!(events[1], AudioEvent::DefaultSource(_)));
}

#[test]
fn a_reset_drops_the_pin() {
    let mut audio = PipewireState::new().audio;
    let mut sent = 0;

    sent += audio.set_target(110, Some("alsa_output.hdmi".into())).len();
    assert_eq!(
        audio.targets.get(&110).map(|name| name.clone()),
        Some("alsa_output.hdmi".to_string())
    );

    sent += audio.set_target(110, None).len();
    assert!(audio.targets.is_empty());
    // Nothing was pinned, so nothing changed.
    sent += audio.set_target(110, None).len();

    assert_eq!(sent, 2);
}

#[test]
fn a_default_is_named_inside_json() {
    assert_eq!(
        metadata_name(r#"{"name":"alsa_output.speaker"}"#).as_deref(),
        Some("alsa_output.speaker")
    );
    // Cleared defaults arrive as a literal null, not as a removed property.
    assert_eq!(metadata_name("null"), None);
    assert_eq!(metadata_name("alsa_output.speaker"), None);
}

#[test]
fn a_target_survives_either_spelling() {
    assert_eq!(unquote("alsa_output.hdmi"), "alsa_output.hdmi");
    assert_eq!(unquote(r#""alsa_output.hdmi""#), "alsa_output.hdmi");
}

#[test]
fn a_media_class_names_a_node_kind() {
    assert_eq!(NodeType::from_str("Audio/Sink").unwrap(), NodeType::Sink);
    assert_eq!(NodeType::from_str("Audio/Source").unwrap(), NodeType::Source);
    assert_eq!(NodeType::from_str("Stream/Output/Audio").unwrap(), NodeType::Stream);
    assert_eq!(NodeType::from_str("Video/Source").unwrap_err().class, "Video/Source");
}

#[test]
fn a_node_needs_a_name() {
    assert!(AudioNode::new(1, NodeType::Sink, &props(&[("node.description", "Speaker")])).is_none());
}

#[test]
fn a_node_without_a_label_is_described_by_its_name() {
    let node = AudioNode::new(3, NodeType::Source, &props(&[("node.name", "mic"), ("object.serial", "x1")])).unwrap();
    assert_eq!(node.description, "mic");
    assert_eq!(node.serial, 0);
    assert_eq!(node.volumes, vec![0]);
    assert!(!node.mute);
}

#[test]
fn the_first_entry_of_a_key_is_the_one_read() {
    let p = props(&[("node.name", "a"), ("node.name", "b")]);
    assert_eq!(p.get("node.name"), Some("a"));
    assert_eq!(p.get("node.nick"), None);
}

#[test]
fn the_last_volume_and_mute_of_a_param_object_are_kept() {
    let mut node = sink();
    let one = 1.0f32.to_bits();
    let half = 0.5f32.to_bits();
    assert!(node.update_params(&vec![
        NodeParam::ChannelVolumes(vec![one, one]),
        NodeParam::Mute(true),
        NodeParam::ChannelVolumes(vec![half]),
    ]));
    assert_eq!(node.volumes, vec![half]);
    assert!(node.mute);
    assert!(!node.update_params(&vec![NodeParam::Other]));
    assert_eq!(node.volumes, vec![half]);
}

#[test]
fn an_unparsable_property_clears_nothing() {
    let mut node = sink();
    assert!(!node.update_props(&props(&[("device.id", "not-a-number"), ("object.serial", "-3")])));
    assert_eq!(node.device, Some(47));
    assert_eq!(node.serial, 62);
}

#[test]
fn the_registry_adds_audio_nodes_only() {
    let mut audio = PipewireState::new().audio;
    assert!(audio.add_node(54, &props(&[("media.class", "Audio/Sink"), ("node.name", "speaker")])));
    assert!(!audio.add_node(55, &props(&[("media.class", "Video/Source"), ("node.name", "camera")])));
    assert!(!audio.add_node(56, &props(&[("media.class", "Audio/Sink")])));
    assert!(!audio.add_node(57, &props(&[("node.name", "classless")])));
    assert_eq!(audio.list(NodeType::Sink).len(), 1);
    assert!(audio.node(55).is_none());
}

#[test]
fn a_removed_global_leaves_no_pin_and_no_node() {
    let mut audio = PipewireState::new().audio;
    audio.add_node(110, &props(&[("media.class", "Stream/Output/Audio"), ("node.name", "spotify")]));
    audio.set_target(110, Some("speaker".into()));
    assert!(audio.remove_global(110));
    assert!(audio.targets.is_empty());
    assert!(audio.node(110).is_none());
    assert!(!audio.remove_global(110));
}

#[test]
fn the_list_runs_by_id() {
    let audio = PipewireState::new().audio;
    audio.nodes.insert(111, stream(111, 3));
    audio.nodes.insert(7, stream(7, 4));
    audio.nodes.insert(54, sink());
    audio.nodes.insert(110, stream(110, 5));
    let ids: Vec<u32> = audio.list(NodeType::Stream).iter().map(|n| n.id).collect();
    assert_eq!(ids, vec![7, 110, 111]);
}

#[test]
fn an_info_event_on_a_sink_reports_three_slices() {
    let mut audio = PipewireState::new().audio;
    audio.nodes.insert(54, sink());
    let events = audio.update_props(54, &props(&[("node.description", "Speaker (Dock)")]));
    assert_eq!(events.len(), 3);
    match &events[0] {
        AudioEvent::Nodes(NodeType::Sink, nodes) => assert_eq!(nodes[0].description, "Speaker (Dock)"),
        _ => panic!("the sink list comes first"),
    }
    assert!(audio.update_props(54, &props(&[("node.description", "Speaker (Dock)")])).is_empty());
    assert!(audio.update_props(99, &props(&[("node.description", "Nobody")])).is_empty());
    assert_eq!(audio.update_params(54, &vec![NodeParam::Mute(true)]).len(), 3);
    assert!(audio.node(54).unwrap().mute);
}

#[test]
fn metadata_sets_defaults_and_pins() {
    let mut audio = PipewireState::new().audio;
    audio.nodes.insert(54, sink());
    let events = audio.metadata_property(0, Some("default.audio.sink"), Some(r#"{"name":"alsa_output.speaker"}"#));
    assert_eq!(events.len(), 1);
    match &events[0] {
        AudioEvent::DefaultSink(Some(node)) => assert_eq!(node.id, 54),
        _ => panic!("the default sink is reported"),
    }
    assert_eq!(audio.metadata_property(110, Some("target.object"), Some("\"62\"")).len(), 1);
    assert_eq!(audio.resolved_targets().get(&110), Some(&54));
    assert!(audio.metadata_property(110, Some("unrelated.key"), Some("1")).is_empty());
    assert!(audio.metadata_property(110, None, None).is_empty());
    assert_eq!(audio.metadata_property(0, Some("default.audio.source"), Some("null")).len(), 0);
}

#[test]
fn commands_go_to_the_node_or_its_route() {
    let audio = PipewireState::new().audio;
    let mut routed = sink();
    routed.profile_device = Some(1);
    audio.nodes.insert(54, routed);
    let mut plain = sink();
    plain.id = 60;
    audio.nodes.insert(60, plain);

    let api = PipewireAudio(&audio);
    match api.set_mute(54, true) {
        Ok(Command::SetMute { target, mute }) => {
            assert_eq!(target, Target::Route { node: 54, device: 47, profile_device: 1 });
            assert!(mute);
        }
        _ => panic!("a mute command"),
    }
    match api.set_volume(60, 7) {
        Ok(Command::SetVolumes { target, volumes }) => {
            assert_eq!(target, Target::Node(60));
            assert_eq!(volumes, vec![7]);
        }
        _ => panic!("a volume command"),
    }
    assert_eq!(api.set_mute(99, true).unwrap_err(), NoSuchNode);
    match api.set_default(54) {
        Ok(Command::SetDefault { kind, name }) => {
            assert_eq!(kind, NodeType::Sink);
            assert_eq!(name, "alsa_output.speaker");
        }
        _ => panic!("a default command"),
    }
    match api.set_target(110, 54) {
        Ok(Command::SetTarget { node, name }) => {
            assert_eq!(node, 110);
            assert_eq!(name.as_deref(), Some("alsa_output.speaker"));
        }
        _ => panic!("a pin command"),
    }
    assert!(matches!(api.reset_target(110), Command::SetTarget { node: 110, name: None }));
}

#[test]
fn only_the_default_metadata_is_followed() {
    assert!(is_default_metadata(&props(&[("metadata.name", "default")])));
    assert!(!is_default_metadata(&props(&[("metadata.name", "settings")])));
    assert!(!is_default_metadata(&props(&[])));
}

#[test]
fn a_route_needs_both_its_index_and_its_device() {
    assert_eq!(
        route_entry(&vec![RouteParam::Index(3), RouteParam::Other, RouteParam::Device(1)]),
        Some((1, 3))
    );
    assert_eq!(
        route_entry(&vec![RouteParam::Device(1), RouteParam::Device(2), RouteParam::Index(4), RouteParam::Index(5)]),
        Some((2, 5))
    );
    assert_eq!(route_entry(&vec![RouteParam::Index(3)]), None);
    assert_eq!(route_entry(&vec![]), None);
}

#[test]
fn a_script_sees_the_first_channel_as_the_volume() {
    let mut node = sink();
    node.volumes = vec![0.25f32.to_bits(), 0.75f32.to_bits()];
    let seen = corona::script::pipewire::Node::from_node(&node);
    assert_eq!(f32::from_bits(seen.volume), 0.25);
    assert_eq!(seen.volumes.len(), 2);
    node.volumes.clear();
    assert_eq!(f32::from_bits(corona::script::pipewire::Node::from_node(&node).volume), 0.0);
    let all = corona::script::pipewire::nodes(&[sink(), stream(110, 1)]);
    assert_eq!(all.len(), 2);
    assert_eq!(all[1].name, "spotify");
    assert_eq!(all[0].nickname.as_deref(), Some("Built-in"));
}
