use mxqueue::queue::{
    deploy_plan, job_name, launch_plan, map_paths, mkdir_command, results_dir,
    start_job_commands, submit_command, DeployStep,
};

fn strings(items: &[&str]) -> Vec<String> {
    items.iter().map(|s| s.to_string()).collect()
}

#[test]
fn mkdir_command_text() {
    assert_eq!(mkdir_command("./jobs/run1"), "mkdir -p ./jobs/run1");
}

#[test]
fn results_dir_replaces_extension() {
    assert_eq!(results_dir("./jobs/run1/a.mx3"), "./jobs/run1/a.zarr");
    assert_eq!(results_dir("plain"), "plain.zarr");
}

#[test]
fn job_name_strips_path_and_extension() {
    assert_eq!(job_name("./jobs/run1/a.mx3"), "a");
    assert_eq!(job_name("b.mx3"), "b");
    assert_eq!(job_name("dir/plain"), "plain");
}

#[test]
fn submit_scenario() {
    let (mk, sub) = start_job_commands("./jobs/run1/a.mx3", "amumax.sh");
    assert_eq!(mk, "mkdir -p ./jobs/run1/a.zarr");
    assert_eq!(
        sub,
        "sbatch --job-name=a --output=./jobs/run1/a.zarr/slurm.logs amumax.sh ./jobs/run1/a.mx3"
    );
}

#[test]
fn submit_command_text() {
    assert_eq!(
        submit_command("jobs/x/b.mx3", "run.sh"),
        "sbatch --job-name=b --output=jobs/x/b.zarr/slurm.logs run.sh jobs/x/b.mx3"
    );
}

#[test]
fn launch_plan_orders_commands_per_file() {
    let cmds = launch_plan(
        &strings(&["./jobs/run1/a.mx3", "./jobs/run1/b.mx3"]),
        "amumax.sh",
    );
    assert_eq!(cmds.len(), 4);
    assert_eq!(cmds[0], "mkdir -p ./jobs/run1/a.zarr");
    assert!(cmds[1].starts_with("sbatch --job-name=a "));
    assert_eq!(cmds[2], "mkdir -p ./jobs/run1/b.zarr");
    assert!(cmds[3].starts_with("sbatch --job-name=b "));
}

#[test]
fn deploy_plan_scenario() {
    let mapping = map_paths(
        "jobs/run1",
        "./jobs",
        Some(strings(&["jobs/run1/a.mx3", "jobs/run1/b.mx3"])),
    )
    .unwrap();
    let steps = deploy_plan(&mapping, "templates/amumax.sh", "./jobs");
    assert_eq!(steps.len(), 4);
    match &steps[0] {
        DeployStep::RunCommand(c) => assert_eq!(c, "mkdir -p ./jobs/run1"),
        _ => panic!("first step must create the destination directory"),
    }
    match &steps[1] {
        DeployStep::Upload { local, remote } => {
            assert_eq!(local, "jobs/run1/a.mx3");
            assert_eq!(remote, "./jobs/run1/a.mx3");
        },
        _ => panic!("second step must upload the first job file"),
    }
    match &steps[2] {
        DeployStep::Upload { local, remote } => {
            assert_eq!(local, "jobs/run1/b.mx3");
            assert_eq!(remote, "./jobs/run1/b.mx3");
        },
        _ => panic!("third step must upload the second job file"),
    }
    match &steps[3] {
        DeployStep::Upload { local, remote } => {
            assert_eq!(local, "templates/amumax.sh");
            assert_eq!(remote, "./jobs/amumax.sh");
        },
        _ => panic!("last step must upload the template under its own name"),
    }
}
