use pretend_core::rpc::client::{
    check_response, decode_frame_length, discord_launch_commands, encode_frame,
    is_discord_socket_candidate, socket_search_plan, SocketCandidate,
};
use pretend_core::rpc::RpcClient;
use pretend_core::Error;

#[test]
fn includes_common_discord_launch_commands() {
    let commands = discord_launch_commands(false);
    assert!(commands.iter().any(|launch| launch.program == "discord"));
    assert!(commands.iter().any(|launch| launch.program == "flatpak"));
}

#[test]
fn launch_commands_in_order() {
    let commands = discord_launch_commands(false);
    let programs: Vec<&str> = commands.iter().map(|c| c.program.as_str()).collect();
    assert_eq!(
        programs,
        vec!["xdg-open", "gio", "discord", "Discord", "discord-ptb", "discord-canary", "flatpak"]
    );
    assert_eq!(commands[0].args, vec!["discord://".to_string()]);
    assert_eq!(commands[1].args, vec!["launch".to_string(), "discord".to_string()]);
    assert!(commands[2].args.is_empty());
    assert_eq!(
        commands[6].args,
        vec!["run".to_string(), "com.discordapp.Discord".to_string()]
    );
}

#[test]
fn macos_opens_discord_first() {
    let commands = discord_launch_commands(true);
    assert_eq!(commands.len(), 8);
    assert_eq!(commands[0].program, "open");
    assert_eq!(commands[0].args, vec!["-a".to_string(), "Discord".to_string()]);
    assert_eq!(commands[1].program, "xdg-open");
}

#[test]
fn frame_prefixes_little_endian_length() {
    let frame = encode_frame(b"{}");
    assert_eq!(frame, vec![2, 0, 0, 0, b'{', b'}']);
    let body = vec![7u8; 300];
    let frame = encode_frame(&body);
    assert_eq!(&frame[..4], &[44, 1, 0, 0]);
    assert_eq!(&frame[4..], &body[..]);
    assert_eq!(encode_frame(&[]), vec![0, 0, 0, 0]);
}

#[test]
fn frame_length_decodes_header() {
    assert_eq!(decode_frame_length([2, 1, 0, 0]), 258);
    assert_eq!(decode_frame_length([0, 0, 0, 0]), 0);
    assert_eq!(decode_frame_length([0xff, 0xff, 0xff, 0xff]), u32::MAX);
    assert_eq!(decode_frame_length([0x78, 0x56, 0x34, 0x12]), 0x1234_5678);
}

#[test]
fn frame_length_roundtrip() {
    let body = vec![1u8; 70000];
    let frame = encode_frame(&body);
    let header = [frame[0], frame[1], frame[2], frame[3]];
    assert_eq!(decode_frame_length(header) as usize, body.len());
}

#[test]
fn response_must_be_json() {
    assert!(check_response(br#"{"cmd":"DISPATCH","evt":"READY"}"#).is_ok());
    assert!(check_response(b"null").is_ok());
    assert!(matches!(check_response(b"{not json"), Err(Error::Json(_))));
    assert!(matches!(check_response(b""), Err(Error::Json(_))));
}

#[test]
fn socket_file_names() {
    assert!(is_discord_socket_candidate("discord-ipc-0"));
    assert!(is_discord_socket_candidate("discord-ipc-12"));
    assert!(!is_discord_socket_candidate("discord-ipc"));
    assert!(!is_discord_socket_candidate("app-discord-ipc-0"));
    assert!(!is_discord_socket_candidate(""));
}

#[test]
fn socket_plan_without_settings_searches_system_dirs() {
    let plan = socket_search_plan(None, None, None);
    assert_eq!(
        plan,
        vec![
            SocketCandidate::SearchUnder("/run/user".into()),
            SocketCandidate::SearchUnder("/var/run".into()),
            SocketCandidate::SearchUnder("/tmp".into()),
        ]
    );
}

#[test]
fn socket_plan_order() {
    let plan = socket_search_plan(
        Some("/custom/ipc".into()),
        Some("/run/user/1000".into()),
        Some("/home/u/".into()),
    );
    assert_eq!(plan.len(), 1 + 3 + 16 + 3);
    assert_eq!(plan[0], SocketCandidate::Path("/custom/ipc".into()));
    assert_eq!(plan[1], SocketCandidate::Path("/run/user/1000/discord-ipc-0".into()));
    assert_eq!(plan[2], SocketCandidate::Path("/run/user/1000/discord-ipc-1".into()));
    assert_eq!(plan[3], SocketCandidate::SearchUnder("/run/user/1000".into()));
    assert_eq!(plan[4], SocketCandidate::Path("/home/u/.config/discord/discord-ipc-0".into()));
    assert_eq!(
        plan[8],
        SocketCandidate::Path("/home/u/.var/app/com.discordapp.Discord/config/discord/discord-ipc-0".into())
    );
    assert_eq!(plan[17], SocketCandidate::SearchUnder("/home/u/.config".into()));
    assert_eq!(
        plan[18],
        SocketCandidate::SearchUnder("/home/u/Library/Application Support".into())
    );
    assert_eq!(plan[22], SocketCandidate::SearchUnder("/tmp".into()));
}

#[test]
fn client_reuses_connection_for_same_application() {
    let mut client = RpcClient::new();
    assert!(!client.is_connected_to("123"));
    client.record_connection("123");
    assert!(client.is_connected_to("123"));
    assert!(!client.is_connected_to("456"));
    client.record_connection("456");
    assert!(client.is_connected_to("456"));
    assert!(!client.is_connected_to("123"));
    let fresh = RpcClient::default();
    assert!(!fresh.is_connected_to(""));
}
