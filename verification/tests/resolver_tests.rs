use project_runner::resolver::legacy_provider_env;
use project_runner::resolver::resolve_command;
use project_runner::resolver::stripped_env_var;
use project_runner::resolver::Platform;
use project_runner::resolver::ResolverProbe;

fn no_probe() -> ResolverProbe {
    ResolverProbe::none()
}

#[test]
fn unix_without_runtime_dir_uses_path_resolution() {
    let cmd = resolve_command(Platform::Unix, "", &no_probe(), "npm", "dev", "/usr/bin:/bin");
    assert_eq!(cmd.shell, "sh");
    assert_eq!(cmd.shell_arg, "-c");
    assert_eq!(cmd.command_line, "node -v && npm run \"dev\"");
    assert_eq!(cmd.path_env, "/usr/bin:/bin");
    assert!(cmd.set_legacy_provider);
}

#[test]
fn unix_runtime_dir_prepends_path_and_quotes_interpreter() {
    let probe = ResolverProbe { node_path_is_file: false, ..no_probe() };
    let cmd = resolve_command(Platform::Unix, "/opt/node/bin", &probe, "npm", "dev", "/usr/bin");
    assert_eq!(cmd.command_line, "\"/opt/node/bin/node\" -v && npm run \"dev\"");
    assert_eq!(cmd.path_env, "/opt/node/bin:/usr/bin");
}

#[test]
fn unix_bundled_entry_script_beats_path_resolution() {
    let probe = ResolverProbe { bundled_cli_in_dir: true, ..no_probe() };
    let cmd = resolve_command(Platform::Unix, "/opt/node/bin", &probe, "npm", "dev", "/usr/bin");
    assert_eq!(
        cmd.command_line,
        "\"/opt/node/bin/node\" -v && \"/opt/node/bin/node\" \"/opt/node/bin/node_modules/npm/bin/npm-cli.js\" run \"dev\""
    );
}

#[test]
fn unix_entry_script_beside_bin_directory() {
    let probe = ResolverProbe { bundled_cli_in_lib: true, ..no_probe() };
    let cmd = resolve_command(Platform::Unix, "/opt/node/bin", &probe, "npm", "dev", "/usr/bin");
    assert_eq!(
        cmd.command_line,
        "\"/opt/node/bin/node\" -v && \"/opt/node/bin/node\" \"/opt/node/lib/node_modules/npm/bin/npm-cli.js\" run \"dev\""
    );
}

#[test]
fn runtime_path_naming_the_binary_is_resolved_to_its_directory() {
    let probe = ResolverProbe { node_path_is_file: true, ..no_probe() };
    let cmd = resolve_command(
        Platform::Unix,
        "/opt/node/bin/node",
        &probe,
        "npm",
        "start",
        "/usr/bin",
    );
    assert_eq!(cmd.command_line, "\"/opt/node/bin/node\" -v && npm run \"start\"");
    assert_eq!(cmd.path_env, "/opt/node/bin:/usr/bin");
}

#[test]
fn windows_without_runtime_dir_appends_cmd_suffix_for_known_managers() {
    let cmd = resolve_command(Platform::Windows, "", &no_probe(), "npm", "build", "C:\\W");
    assert_eq!(cmd.shell, "cmd");
    assert_eq!(cmd.command_line, "node -v && npm.cmd run \"build\"");
    assert_eq!(cmd.shell_arg, " /C \"node -v && npm.cmd run \"build\"\"");
    assert_eq!(cmd.path_env, "C:\\W");

    let yarn = resolve_command(Platform::Windows, "", &no_probe(), "yarn", "build", "C:\\W");
    assert_eq!(yarn.command_line, "node -v && yarn.cmd run \"build\"");

    let other = resolve_command(Platform::Windows, "", &no_probe(), "bun", "build", "C:\\W");
    assert_eq!(other.command_line, "node -v && bun run \"build\"");
}

#[test]
fn windows_runtime_dir_with_bundled_entry_script() {
    let probe = ResolverProbe { bundled_cli_in_dir: true, ..no_probe() };
    let cmd = resolve_command(
        Platform::Windows,
        "C:\\nvm\\v20.1.0",
        &probe,
        "npm",
        "dev",
        "C:\\W",
    );
    assert_eq!(
        cmd.command_line,
        "\"C:\\nvm\\v20.1.0\\node.exe\" -v && \"C:\\nvm\\v20.1.0\\node.exe\" \"C:\\nvm\\v20.1.0\\node_modules\\npm\\bin\\npm-cli.js\" run \"dev\""
    );
    assert_eq!(cmd.path_env, "C:\\nvm\\v20.1.0;C:\\W");
}

#[test]
fn windows_native_launcher_in_runtime_dir() {
    let probe = ResolverProbe { native_launcher_in_dir: true, ..no_probe() };
    let cmd = resolve_command(
        Platform::Windows,
        "C:\\nvm\\v20.1.0",
        &probe,
        "pnpm",
        "dev",
        "C:\\W",
    );
    assert_eq!(
        cmd.command_line,
        "\"C:\\nvm\\v20.1.0\\node.exe\" -v && \"C:\\nvm\\v20.1.0\\pnpm.cmd\" run \"dev\""
    );
}

#[test]
fn windows_runtime_dir_without_any_launcher_falls_back_to_path() {
    let cmd = resolve_command(
        Platform::Windows,
        "C:\\nvm\\v20.1.0",
        &no_probe(),
        "npm",
        "dev",
        "C:\\W",
    );
    assert_eq!(cmd.command_line, "\"C:\\nvm\\v20.1.0\\node.exe\" -v && npm run \"dev\"");
}

#[test]
fn script_names_with_special_characters_are_quoted() {
    let cmd = resolve_command(Platform::Unix, "", &no_probe(), "npm", "build:prod", "/usr/bin");
    assert_eq!(cmd.command_line, "node -v && npm run \"build:prod\"");
}

#[test]
fn legacy_provider_toggle_tracks_old_major_versions() {
    for old in ["C:\\nvm\\v14.17.0", "/opt/v16.20.2/bin", "x/v12.0.0", "v10.1.0"] {
        let cmd = resolve_command(Platform::Unix, old, &no_probe(), "npm", "dev", "");
        assert!(!cmd.set_legacy_provider, "{} must not set the toggle", old);
    }
    for newer in ["", "C:\\nvm\\v20.1.0", "/opt/node/v18.19.1/bin", "v15.0.0"] {
        let cmd = resolve_command(Platform::Unix, newer, &no_probe(), "npm", "dev", "");
        assert!(cmd.set_legacy_provider, "{} must set the toggle", newer);
    }
}

#[test]
fn environment_variable_names() {
    assert_eq!(stripped_env_var(), "SASS_BINARY_PATH");
    let (name, value) = legacy_provider_env();
    assert_eq!(name, "NODE_OPTIONS");
    assert_eq!(value, "--openssl-legacy-provider");
}

#[test]
fn trailing_separator_on_runtime_dir_is_not_doubled() {
    let cmd = resolve_command(Platform::Unix, "/opt/node/bin/", &no_probe(), "npm", "dev", "");
    assert_eq!(cmd.command_line, "\"/opt/node/bin/node\" -v && npm run \"dev\"");
}
