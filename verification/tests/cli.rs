use sqzer::cli::args::{color_when, format_name, parse_format, parse_pixels, When, OUTPUT_FORMATS};
use sqzer::cli::budget::PixelBudget;
use sqzer::cli::config::{finish, Failure};
use sqzer::cli::inputs::{resolve, rimage_hint, strip_trailing_quote, file_list, Input, Lookup};
use sqzer::cli::job::{backup_path, destination, Destination};
use sqzer::cli::output::{Naming, PlaceError, Placement, QualityLabel, Template};
use sqzer::cli::paths::{same_path, stem_of};
use sqzer::cli::report::{Status, Tally};
use sqzer::format::Format;

#[test]
fn limit_follows_the_adr_formula_with_a_floor() {
    assert_eq!(PixelBudget::for_run(100, 8).limit(), 200);
    assert_eq!(PixelBudget::for_run(100, 1).limit(), 100);
    assert_eq!(PixelBudget::for_run(100, 4).limit(), 100);
    assert_eq!(PixelBudget::for_run(u64::MAX, 8).limit(), u64::MAX);
}

#[test]
fn reservations_add_up_and_release_on_drop() {
    let mut b = PixelBudget::new(100);
    let a = b.reserve(60).unwrap();
    assert_eq!(b.used(), 60);
    let c = b.reserve(30).unwrap();
    assert_eq!(b.used(), 90);
    b.release(a);
    assert_eq!(b.used(), 30);
    b.release(c);
    assert_eq!(b.used(), 0);
}

#[test]
fn an_oversized_reservation_proceeds_when_alone() {
    let mut b = PixelBudget::new(10);
    let r = b.reserve(1000).unwrap();
    assert_eq!(b.used(), 1000);
    b.release(r);
}

#[test]
fn pixel_counts_take_suffixes() {
    assert_eq!(parse_pixels("268435456").unwrap(), 268_435_456);
    assert_eq!(parse_pixels("268M").unwrap(), 268_000_000);
    assert_eq!(parse_pixels("2k").unwrap(), 2_000);
    assert_eq!(parse_pixels("1G").unwrap(), 1_000_000_000);
    assert!(parse_pixels("lots").is_err());
    assert!(parse_pixels("0").is_err());
}

#[test]
fn format_names_round_trip() {
    for &f in OUTPUT_FORMATS.iter() {
        assert_eq!(parse_format(format_name(f)).unwrap(), f);
        assert_eq!(parse_format(&format_name(f).to_uppercase()).unwrap(), f);
    }
    assert_eq!(parse_format("jpg").unwrap(), Format::Jpeg);
}

fn names(r: &sqzer::cli::inputs::Resolved) -> Vec<String> {
    r.inputs
        .iter()
        .map(|i| match i.path() {
            Some(p) => sqzer::cli::paths::file_name(p),
            None => "-".to_string(),
        })
        .collect()
}

#[test]
fn existing_path_is_literal_even_with_glob_chars() {
    let odd = "/tmp/literal/a[1].png".to_string();
    let r = resolve(&[odd], &[Lookup::File], false);
    assert_eq!(names(&r), vec!["a[1].png"]);
    assert!(r.failures.is_empty());
}

#[test]
fn missing_plain_path_is_a_failure_and_a_directory_needs_recursive() {
    let r = resolve(&["/tmp/missing/nope.png".to_string()], &[Lookup::Missing(None)], false);
    assert_eq!(r.failures[0].1, "no such file");
    let r = resolve(&["/tmp/missing".to_string()], &[Lookup::Dir(vec![])], false);
    assert!(r.failures[0].1.contains("pass -r"));
}

#[test]
fn walk_mirrors_and_filters() {
    let dir = "/tmp/walk".to_string();
    let found = vec![
        "/tmp/walk/a/b/c.png".to_string(),
        "/tmp/walk/a/d.PNG".to_string(),
        "/tmp/walk/e.png".to_string(),
    ];
    let r = resolve(&[dir], &[Lookup::Dir(found)], true);
    assert_eq!(names(&r), vec!["c.png", "d.PNG", "e.png"]);
    let rel: Vec<String> = r.inputs.iter().map(Input::relative_dir).collect();
    assert_eq!(rel, vec!["a/b".to_string(), "a".to_string(), String::new()]);
}

#[test]
fn duplicates_collapse_and_stdin_is_one_input() {
    let s = "/tmp/dup/x.png".to_string();
    let r = resolve(
        &[s.clone(), s, "-".into(), "-".into()],
        &[Lookup::File, Lookup::File, Lookup::File, Lookup::File],
        false,
    );
    assert_eq!(r.inputs.len(), 2);
    assert_eq!(r.inputs[1], Input::Stdin);
    assert_eq!(r.inputs[1].display(), "-");
}

#[test]
fn trailing_quote_is_stripped() {
    assert_eq!(strip_trailing_quote(r#"C:\dir""#), r"C:\dir");
    assert_eq!(strip_trailing_quote("plain"), "plain");
    let quoted = "/tmp/quote/q.png\"".to_string();
    let r = resolve(&[quoted], &[Lookup::File], false);
    assert_eq!(names(&r), vec!["q.png"]);
}

#[test]
fn files_from_splits_on_newline_or_nul() {
    assert_eq!(file_list("a.png\r\nb.png\n\n", false), vec!["a.png", "b.png"]);
    assert_eq!(file_list("a b.png\0c\n.png\0", true), vec!["a b.png", "c\n.png"]);
}

#[test]
fn rimage_syntax_gets_a_rewrite() {
    let argv: Vec<String> = ["mozjpeg", "-q", "75", "-d", "out", "in.jpg"]
        .iter()
        .map(ToString::to_string)
        .collect();
    let hint = rimage_hint(&argv, false).unwrap();
    assert!(hint.contains("sqzer -f jpeg -q 75 -o out in.jpg"), "{hint}");
    assert!(rimage_hint(&["photo.jpg".to_string()], false).is_none());
    assert!(rimage_hint(&[], false).is_none());
}

#[test]
fn backup_names_keep_the_extension() {
    assert_eq!(backup_path("dir/photo.jpg"), "dir/photo@backup.jpg");
    assert_eq!(backup_path("a.b.png"), "a.b@backup.png");
    assert_eq!(backup_path("noext"), "noext@backup");
}

fn naming(input: &Input, format: Format) -> Naming<'_> {
    Naming {
        input,
        input_format: Format::Jpeg,
        format,
        width: 1600,
        height: 900,
        quality: Some(QualityLabel::Whole(72)),
    }
}

const CWD: &str = "/work";

#[test]
fn default_is_a_sibling_with_the_new_extension() {
    let input = Input::File("photos/2024/trip.holiday.jpg".into());
    let out = Placement::default()
        .resolve(&naming(&input, Format::Avif), CWD)
        .unwrap();
    assert_eq!(out, "photos/2024/trip.holiday.avif");
    let err = Placement::default()
        .resolve(&naming(&input, Format::Jpeg), CWD)
        .unwrap_err();
    assert_eq!(err, PlaceError::OverwritesInput);
}

#[test]
fn suffix_template_and_directory() {
    let input = Input::File("in/a.jpg".into());
    let p = Placement {
        suffix: Some("-min".into()),
        ..Default::default()
    };
    assert_eq!(
        p.resolve(&naming(&input, Format::Jpeg), CWD).unwrap(),
        "in/a-min.jpg"
    );
    let p = Placement {
        template: Some(Template::new("{stem}-{width}w-q{quality}.{ext}").unwrap()),
        output: Some("out".into()),
        ..Default::default()
    };
    assert_eq!(
        p.resolve(&naming(&input, Format::WebP), CWD).unwrap(),
        "out/a-1600w-q72.webp"
    );
    let p = Placement {
        template: Some(Template::new("{dir}/{name}.{format}").unwrap()),
        ..Default::default()
    };
    let mut n = naming(&input, Format::Avif);
    n.quality = None;
    assert_eq!(p.resolve(&n, CWD).unwrap(), "in/in/a.jpg.avif");
}

#[test]
fn single_file_output_and_tree_mirroring() {
    let input = Input::File("a.jpg".into());
    let p = Placement {
        output: Some("out/b.avif".into()),
        single_file: true,
        ..Default::default()
    };
    assert_eq!(
        p.resolve(&naming(&input, Format::Avif), CWD).unwrap(),
        "out/b.avif"
    );
    let input = Input::InTree {
        root: "assets".into(),
        path: "assets/img/deep/x.jpg".into(),
    };
    let p = Placement {
        output: Some("dist".into()),
        ..Default::default()
    };
    assert_eq!(
        p.resolve(&naming(&input, Format::Avif), CWD).unwrap(),
        "dist/img/deep/x.avif"
    );
    assert_eq!(
        Placement::default()
            .resolve(&naming(&input, Format::Avif), CWD)
            .unwrap(),
        "assets/img/deep/x.avif"
    );
}

#[test]
fn in_place_keeps_the_path_and_the_format() {
    let input = Input::File("a.jpg".into());
    let p = Placement {
        in_place: true,
        ..Default::default()
    };
    assert_eq!(
        p.resolve(&naming(&input, Format::Jpeg), CWD).unwrap(),
        "a.jpg"
    );
    assert!(matches!(
        p.resolve(&naming(&input, Format::Avif), CWD),
        Err(PlaceError::InPlaceChangesFormat { .. })
    ));
}

#[test]
fn output_equals_input_only_in_place() {
    let inputs = [
        Input::File("a.jpg".into()),
        Input::File("./a.jpg".into()),
        Input::File("dir/a.b.jpg".into()),
        Input::InTree {
            root: "dir".into(),
            path: "dir/sub/a.jpg".into(),
        },
    ];
    let suffixes = [None, Some(String::new()), Some("-min".to_string())];
    let templates = [
        None,
        Some("{stem}.{ext}"),
        Some("{name}"),
        Some("{dir}/{name}"),
        Some("{stem}-{width}.{ext}"),
    ];
    let outputs: [Option<String>; 3] = [None, Some("dir".into()), Some("dir/sub".into())];
    let mut checked = 0;
    for input in &inputs {
        for suffix in &suffixes {
            for template in templates {
                for output in &outputs {
                    for in_place in [false, true] {
                        for format in [Format::Jpeg, Format::Avif] {
                            let p = Placement {
                                output: output.clone(),
                                single_file: false,
                                suffix: suffix.clone(),
                                template: template.map(|t| Template::new(t).unwrap()),
                                in_place,
                            };
                            let n = naming(input, format);
                            if let Ok(out) = p.resolve(&n, CWD) {
                                checked += 1;
                                let equal = same_path(&out, input.path().unwrap(), CWD);
                                assert!(!equal || in_place, "{input:?} {p:?} -> {out}");
                            }
                        }
                    }
                }
            }
        }
    }
    assert!(checked > 100);
}

#[test]
fn templates_are_checked() {
    assert!(Template::new("{stem}.{ext}").is_ok());
    assert!(Template::new("{nope}").unwrap_err().contains("{nope}"));
    assert!(Template::new("{stem").is_err());
    assert!(Template::new("stem}").is_err());
}

#[test]
fn stems_split_at_the_last_dot() {
    assert_eq!(stem_of("a.b.c.PNG"), "a.b.c");
    assert_eq!(stem_of("noext"), "noext");
    assert_eq!(stem_of("dir/.hidden"), ".hidden");
}

#[test]
fn same_path_normalises() {
    assert!(same_path("./a/b.jpg", "a/b.jpg", CWD));
    assert!(same_path("a/../a/b.jpg", "a/b.jpg", CWD));
    assert!(!same_path("a/b.jpg", "a/b.avif", CWD));
}

#[test]
fn tally_counts_and_sums_written_bytes() {
    let mut t = Tally::default();
    t.add(Status::Written, Some(1000), Some(400));
    t.add(Status::Skipped, Some(1000), Some(1200));
    t.add(Status::Failed, None, None);
    let t = t.merge(Tally {
        planned: 2,
        ..Tally::default()
    });
    assert_eq!((t.written, t.skipped, t.planned, t.failed), (1, 1, 2, 1));
    assert_eq!((t.input_bytes, t.output_bytes), (1000, 400));
    assert_eq!(t.total(), 5);
}

#[test]
fn stdin_rules_and_single_file_output() {
    let place = |output: Option<&str>| Placement {
        output: output.map(String::from),
        ..Default::default()
    };
    let mut p = place(None);
    assert!(finish(&mut p, &[Input::Stdin], 1, false, false, false, false).is_ok());
    let mut p = place(None);
    assert_eq!(
        finish(&mut p, &[Input::Stdin], 0, false, false, false, false)
            .unwrap_err()
            .code,
        2
    );
    let mut p = place(None);
    assert_eq!(
        finish(&mut p, &[Input::Stdin], 1, true, false, false, false)
            .unwrap_err()
            .code,
        2
    );
    let mut p = place(Some("out.png"));
    assert!(finish(&mut p, &[Input::Stdin], 1, true, false, true, false).is_ok());
    assert!(p.single_file);

    let mut p = place(Some("b.avif"));
    finish(&mut p, &[Input::File("a.png".into())], 0, false, false, true, false).unwrap();
    assert!(p.single_file);
    let mut p = place(Some("b.avif"));
    finish(
        &mut p,
        &[Input::File("a.png".into()), Input::File("c.png".into())],
        0,
        false,
        false,
        true,
        false,
    )
    .unwrap();
    assert!(!p.single_file);
    let mut p = place(Some("b.avif"));
    finish(&mut p, &[Input::File("a.png".into())], 2, false, false, true, false).unwrap();
    assert!(!p.single_file);
    let f: Failure = Failure::usage("x".to_string());
    assert_eq!(f.code, 2);
}

fn argv(args: &[&str]) -> Vec<String> {
    args.iter().map(|a| a.to_string()).collect()
}

#[test]
fn colour_switch_is_scanned_before_parsing() {
    assert_eq!(color_when(&argv(&["sqzer", "a.png"])), When::Auto);
    assert_eq!(color_when(&argv(&["sqzer", "--color", "always", "a.png"])), When::Always);
    assert_eq!(color_when(&argv(&["sqzer", "--color=never"])), When::Never);
    assert_eq!(color_when(&argv(&["sqzer", "--color", "sometimes"])), When::Auto);
    // The last value that means something wins.
    assert_eq!(color_when(&argv(&["sqzer", "--color=always", "--color=never"])), When::Never);
    assert_eq!(color_when(&argv(&["sqzer", "--color=always", "--color=bogus"])), When::Always);
    // `--color` takes the next argument as its value, whatever it is.
    assert_eq!(color_when(&argv(&["sqzer", "--color", "--color=never"])), When::Auto);
    assert_eq!(color_when(&argv(&["sqzer", "--color"])), When::Auto);
}

#[test]
fn destinations_for_stdin_and_files() {
    let stdin = Input::Stdin;
    let to_stdout = Placement::default();
    assert_eq!(destination(&to_stdout, &naming(&stdin, Format::Png), CWD), Ok(Destination::Stdout));
    let into_dir = Placement { output: Some("out".into()), ..Default::default() };
    assert_eq!(
        destination(&into_dir, &naming(&stdin, Format::Png), CWD),
        Ok(Destination::File("out/stdin.png".into()))
    );
    let one_file = Placement { output: Some("x.webp".into()), single_file: true, ..Default::default() };
    assert_eq!(
        destination(&one_file, &naming(&stdin, Format::WebP), CWD),
        Ok(Destination::File("x.webp".into()))
    );
    let file = Input::File("in/a.jpg".into());
    assert_eq!(
        destination(&to_stdout, &naming(&file, Format::Avif), CWD),
        Ok(Destination::File("in/a.avif".into()))
    );
    let err = destination(&to_stdout, &naming(&file, Format::Jpeg), CWD).unwrap_err();
    assert_eq!(err, PlaceError::OverwritesInput.message());
}
