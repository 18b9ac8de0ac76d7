use fp_appimage_updater::cli::{command_defs, global_opts};
use fp_appimage_updater::commands::completion::completion_script;

#[test]
fn bash_completion_lists_commands_and_options() {
    let script = completion_script("bash", &command_defs(), &global_opts()).expect("bash is supported");
    assert!(script.starts_with("_fp_appimage_updater() {"));
    assert!(script.contains("cmds=\"init validate doctor list check update remove self-update completion\""));
    assert!(script.contains("global_opts=\"-c --config --json -h --help -V --version\""));
    assert!(script.contains(
        "        update)\n            opts=\"--self-update --debug-download-url <URL> --debug-version <VER>\"\n            ;;\n"
    ));
    assert!(script.ends_with("complete -F _fp_appimage_updater fp-appimage-updater"));
}

#[test]
fn zsh_and_fish_completion() {
    let zsh = completion_script("zsh", &command_defs(), &global_opts()).expect("zsh is supported");
    assert!(zsh.starts_with("#compdef fp-appimage-updater"));
    assert!(zsh.contains("                remove) _arguments '*: :(-a --all)' ;;\n"));
    assert!(zsh.ends_with("fi"));
    let fish = completion_script("fish", &command_defs(), &global_opts()).expect("fish is supported");
    assert!(fish.starts_with("complete -c fp-appimage-updater -f\n"));
    assert!(fish.contains("-n 'not __fish_seen_subcommand_from init validate doctor list check update remove self-update completion' -l 'config'\n"));
    assert!(fish.contains("-n 'not __fish_seen_subcommand_from init validate doctor list check update remove self-update completion' -o 'c'\n"));
    assert!(fish.contains("complete -c fp-appimage-updater -n '__fish_seen_subcommand_from remove' -o 'a'\n"));
    assert!(fish.ends_with("-l 'pre-release'") || fish.ends_with("-a 'completion'"));
}

#[test]
fn unknown_shell_is_refused() {
    let err = completion_script("powershell", &command_defs(), &global_opts()).unwrap_err();
    assert_eq!(err, "Unsupported shell: powershell");
}
