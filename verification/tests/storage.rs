use spider_node::storage::{export_target, Export, ExportAction, ExportProgress, ExportStep};

fn target(path: Option<&str>, url: &str) -> (String, String) {
    let t = export_target(path.map(|p| p.to_string()), url);
    (t.directory, t.file)
}

fn pair(directory: &str, file: &str) -> (String, String) {
    (directory.to_string(), file.to_string())
}

#[test]
fn a_path_with_an_extension_is_the_file() {
    assert_eq!(target(Some("storage/out.jsonl"), ""), pair("storage", "storage/out.jsonl"));
    assert_eq!(target(Some("out.jsonl"), ""), pair("", "out.jsonl"));
    assert_eq!(target(Some("./storage/out.json"), ""), pair("./storage", "./storage/out.json"));
}

#[test]
fn a_path_without_an_extension_gets_one() {
    assert_eq!(target(Some("storage"), ""), pair("storage", "storage.jsonl"));
    assert_eq!(target(Some("a/b"), ""), pair("a/b", "a/b.jsonl"));
    assert_eq!(target(Some(""), ""), pair("", ".jsonl"));
}

#[test]
fn every_directory_of_the_path_is_created() {
    assert_eq!(target(Some("a/b/c.jsonl"), ""), pair("a/b", "a/b/c.jsonl"));
    assert_eq!(target(Some("/tmp/x/y.jsonl"), ""), pair("/tmp/x", "/tmp/x/y.jsonl"));
    assert_eq!(target(Some("v1.2/c"), ""), pair("v1.2", "v1.2/c"));
}

#[test]
fn the_default_is_named_by_the_address() {
    assert_eq!(
        target(None, "https://example.com"),
        pair("./storage", "./storage/example.comjsonl")
    );
    assert_eq!(
        target(None, "http://example.com/a"),
        pair("./storage", "./storage/example.com/ajsonl")
    );
}

/// Runs an export whose steps have the given outcomes: the steps taken, and the result.
fn run(outcomes: [Result<(), &str>; 3]) -> (Vec<ExportStep>, Result<(), &str>) {
    let mut step = ExportStep::first();
    let mut taken = Vec::new();
    loop {
        taken.push(step);
        match step.after(outcomes[taken.len() - 1]) {
            ExportProgress::Next(next) => step = next,
            ExportProgress::Done(result) => return (taken, result),
        }
    }
}

#[test]
fn an_export_takes_its_steps_up_to_the_first_error() {
    expect_run(run([Ok(()), Ok(()), Ok(())]), 3, Ok(()));
    expect_run(run([Err("d"), Err("f"), Err("w")]), 1, Err("d"));
    expect_run(run([Ok(()), Err("f"), Err("w")]), 2, Err("f"));
    expect_run(run([Ok(()), Ok(()), Err("w")]), 3, Err("w"));
}

fn expect_run(run: (Vec<ExportStep>, Result<(), &str>), count: usize, result: Result<(), &str>) {
    let all = [ExportStep::CreateDirectory, ExportStep::CreateFile, ExportStep::WriteData];
    assert_eq!(run.0, all[..count].to_vec());
    assert_eq!(run.1, result);
}

#[test]
fn each_step_works_on_its_part_of_the_export() {
    let data = vec![1, 2, 3];
    let export = Export { target: export_target(Some("a/b.jsonl".to_string()), ""), data: &data };
    assert!(matches!(export.action(ExportStep::CreateDirectory),
        ExportAction::CreateDirectory(d) if d == "a"));
    assert!(matches!(export.action(ExportStep::CreateFile),
        ExportAction::CreateFile(f) if f == "a/b.jsonl"));
    assert!(matches!(export.action(ExportStep::WriteData),
        ExportAction::WriteData(d) if d == &data));
}
