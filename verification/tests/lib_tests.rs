use delete_rest::action::Action;
use delete_rest::config::{ConfigFile, ConfigFileError};
use delete_rest::keepfile::KeepFile;
use delete_rest::{AppConfig, AppConfigError, Args, ExecutionOptions, SelectedDirectory};

fn sample_args() -> Args {
    Args {
        path: Some("photos".to_owned()),
        keep: None,
        config: None,
        move_to: None,
        copy_to: Some("out".to_owned()),
        delete: false,
        dry_run: true,
        verbose: true,
        print_config: false,
    }
}

#[test]
fn selected_directory_carries_the_path() {
    let dir = SelectedDirectory::new("/data/photos".to_owned());
    assert_eq!(dir.as_str(), "/data/photos");
    assert_eq!(dir.0, "/data/photos");
}

#[test]
fn app_config_holds_the_resolved_run() {
    let args = sample_args();
    let keepfile = match KeepFile::parse("1\n") {
        Ok(kf) => kf,
        Err(_) => panic!("keep file should parse"),
    };
    let config = AppConfig {
        path: SelectedDirectory::new("photos".to_owned()),
        config_file: ConfigFile {
            name: None,
            extensions: vec![],
            formats: vec![],
        },
        keepfile,
        action: Action::new(args.copy_to, args.move_to, args.delete),
        options: ExecutionOptions {
            dry_run: args.dry_run,
            verbose: args.verbose,
            print: args.print_config,
        },
    };

    assert_eq!(config.path.0, "photos");
    assert!(config.options.dry_run);
    assert!(config.options.verbose);
    assert!(!config.options.print);
    assert!(matches!(
        config.action,
        Action::MoveOrCopyTo(_, d) if d == "out"
    ));
}

#[test]
fn error_enums_carry_their_messages() {
    let e = AppConfigError::Io("no such directory".to_owned());
    assert!(matches!(e, AppConfigError::Io(m) if m == "no such directory"));

    let e = AppConfigError::Config(ConfigFileError::Yaml("bad document".to_owned()));
    match e {
        AppConfigError::Config(ConfigFileError::Yaml(m)) => {
            assert_eq!(m, "bad document");
        }
        _ => panic!("wrong variant"),
    }
}
