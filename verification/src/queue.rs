use vstd::prelude::*;

use crate::text::{
    base_of, dir_name, dir_name_of, ends_with, is_prefix, is_suffix, join_path, path_join,
    starts_with, trim_slashes, trim_trailing_slashes,
};

verus! {

// Deployment maps the job files found directly inside a local source
// directory onto a remote destination directory named after that source
// directory, then turns every deployed file into its submission commands. The
// embedding application lists the directory and carries the commands and
// uploads out; everything decided about paths and command text is verified
// here.

/// The extension that marks a job file.
pub open spec fn job_ext() -> Seq<char> {
    ".mx3"@
}

/// The extension of a job's results directory.
pub open spec fn results_ext() -> Seq<char> {
    ".zarr"@
}

/// `p` names a job file: it ends with the job-file extension and the
/// character before the extension exists and is no path separator.
pub open spec fn has_job_ext(p: Seq<char>) -> bool {
    &&& p.len() > job_ext().len()
    &&& is_suffix(job_ext(), p)
    &&& p[p.len() - job_ext().len() - 1] != '/'
}

/// Whether `p` names a job file.
pub fn is_job_file(p: &str) -> (r: bool)
    ensures
        r == has_job_ext(p@),
{
    proof {
        reveal_strlit(".mx3");
    }
    let n = p.unicode_len();
    if n <= 4 {
        return false;
    }
    if !ends_with(p, ".mx3") {
        return false;
    }
    p.get_char(n - 5) != '/'
}

/// The job files among `names`, in order.
pub open spec fn job_files_of(names: Seq<Seq<char>>) -> Seq<Seq<char>>
    decreases names.len(),
{
    if names.len() == 0 {
        Seq::empty()
    } else if has_job_ext(names[0]) {
        seq![names[0]] + job_files_of(names.drop_first())
    } else {
        job_files_of(names.drop_first())
    }
}

/// Selects the job files among the listed directory entries, keeping their
/// order.
pub fn select_job_files(entries: &Vec<String>) -> (r: Vec<String>)
    ensures
        r@.map_values(|s: String| s@) == job_files_of(entries@.map_values(|s: String| s@)),
{
    let ghost views = entries@.map_values(|s: String| s@);
    let mut out: Vec<String> = Vec::new();
    let mut i: usize = 0;
    proof {
        assert(views.skip(0) =~= views);
    }
    while i < entries.len()
        invariant
            0 <= i <= entries@.len(),
            views == entries@.map_values(|s: String| s@),
            out@.map_values(|s: String| s@) + job_files_of(views.skip(i as int)) == job_files_of(
                views,
            ),
        decreases entries@.len() - i,
    {
        proof {
            assert(views.skip(i as int)[0] == views[i as int]);
            assert(views.skip(i as int).drop_first() =~= views.skip(i + 1));
        }
        let ghost out_before = out@;
        if is_job_file(entries[i].as_str()) {
            out.push(entries[i].clone());
            proof {
                assert(out@.map_values(|s: String| s@) =~= out_before.map_values(|s: String| s@)
                    + seq![views[i as int]]);
                assert(out@.map_values(|s: String| s@) + job_files_of(views.skip(i + 1)) =~= (
                out_before.map_values(|s: String| s@) + job_files_of(views.skip(i as int))));
            }
        }
        i += 1;
    }
    proof {
        assert(views.skip(entries@.len() as int) =~= Seq::<Seq<char>>::empty());
        assert(out@.map_values(|s: String| s@) =~= out@.map_values(|s: String| s@) + job_files_of(
            views.skip(entries@.len() as int),
        ));
    }
    out
}

/// The remote destination directory: the jobs root joined with the name of
/// the source directory.
pub open spec fn dst_dir_of(src_dir: Seq<char>, dst_root: Seq<char>) -> Seq<char> {
    path_join(dst_root, dir_name_of(src_dir))
}

/// Joins the remote jobs root with the name of the source directory: the
/// deployment mirrors the source directory's name, not its full path.
pub fn get_dst_dir(src_dir: &str, dst_jobs_dir: &str) -> (r: String)
    ensures
        r@ == dst_dir_of(src_dir@, dst_jobs_dir@),
{
    join_path(dst_jobs_dir, dir_name(src_dir))
}

/// The prefix every descendant of the directory `dir` carries: the directory
/// path, trailing slashes ignored, then one separator.
pub open spec fn dir_prefix_of(dir: Seq<char>) -> Seq<char> {
    trim_slashes(dir) + seq!['/']
}

/// `p` lies under the directory `dir`.
pub open spec fn under_dir(p: Seq<char>, dir: Seq<char>) -> bool {
    is_prefix(dir_prefix_of(dir), p)
}

/// The path of `p` relative to the directory `dir`.
pub open spec fn rel_to_dir(p: Seq<char>, dir: Seq<char>) -> Seq<char> {
    p.skip(dir_prefix_of(dir).len() as int)
}

/// Why no mapping could be produced.
#[derive(Clone, Copy, PartialEq, Eq, Structural, Debug)]
pub enum MappingError {
    /// The source directory does not exist or could not be listed.
    SourceDirMissing,
    /// The source directory holds no job file.
    NoInputFiles,
    /// A listed file is not a descendant of the source directory.
    NotUnderSource,
}

/// Where each deployed file goes: the remote destination directory, and one
/// local-to-remote pair per job file, in discovery order.
#[derive(Debug)]
pub struct PathMapping {
    /// The remote destination directory.
    pub remote_dir: String,
    /// `(local_path, remote_path)` for every job file.
    pub pairs: Vec<(String, String)>,
}

/// Maps each local job file onto the destination directory: every file must
/// lie under the source directory, and its remote path is the destination
/// directory joined with its path relative to the source directory.
pub fn get_dst_mx3(src_mx3: &Vec<String>, src_dir: &str, dst_dir: &str) -> (r: Result<
    Vec<String>,
    MappingError,
>)
    ensures
        match r {
            Ok(v) => {
                &&& v@.len() == src_mx3@.len()
                &&& forall|k: int|
                    0 <= k < src_mx3@.len() ==> under_dir((#[trigger] src_mx3@[k])@, src_dir@)
                        && v@[k]@ == path_join(dst_dir@, rel_to_dir(src_mx3@[k]@, src_dir@))
            },
            Err(e) => {
                &&& e == MappingError::NotUnderSource
                &&& exists|k: int|
                    0 <= k < src_mx3@.len() && !under_dir((#[trigger] src_mx3@[k])@, src_dir@)
            },
        },
{
    let trimmed = trim_trailing_slashes(src_dir);
    let mut prefix = trimmed.to_owned();
    prefix.append("/");
    proof {
        reveal_strlit("/");
        assert(prefix@ =~= dir_prefix_of(src_dir@));
    }
    let mut out: Vec<String> = Vec::new();
    let mut i: usize = 0;
    while i < src_mx3.len()
        invariant
            0 <= i <= src_mx3@.len(),
            prefix@ == dir_prefix_of(src_dir@),
            out@.len() == i,
            forall|k: int|
                0 <= k < i ==> under_dir((#[trigger] src_mx3@[k])@, src_dir@) && out@[k]@
                    == path_join(dst_dir@, rel_to_dir(src_mx3@[k]@, src_dir@)),
        decreases src_mx3@.len() - i,
    {
        let p = &src_mx3[i];
        if !starts_with(p.as_str(), prefix.as_str()) {
            return Err(MappingError::NotUnderSource);
        }
        let n = p.as_str().unicode_len();
        let m = prefix.as_str().unicode_len();
        let rel = p.as_str().substring_char(m, n);
        proof {
            assert(rel@ =~= rel_to_dir(src_mx3@[i as int]@, src_dir@));
        }
        out.push(join_path(dst_dir, rel));
        i += 1;
    }
    Ok(out)
}

/// Produces the deployment mapping for one source directory: `entries` lists
/// the regular files directly inside it (`None` when the directory does not
/// exist), and the mapping covers exactly its job files.
pub fn map_paths(src_dir: &str, dst_root: &str, entries: Option<Vec<String>>) -> (r: Result<
    PathMapping,
    MappingError,
>)
    ensures
        match r {
            Ok(m) => {
                &&& entries matches Some(es)
                &&& {
                    let files = job_files_of(es@.map_values(|s: String| s@));
                    &&& files.len() > 0
                    &&& m.remote_dir@ == dst_dir_of(src_dir@, dst_root@)
                    &&& m.pairs@.len() == files.len()
                    &&& forall|k: int|
                        0 <= k < files.len() ==> (#[trigger] m.pairs@[k]).0@ == files[k]
                            && under_dir(files[k], src_dir@) && m.pairs@[k].1@ == path_join(
                            dst_dir_of(src_dir@, dst_root@),
                            rel_to_dir(files[k], src_dir@),
                        )
                }
            },
            Err(e) => match e {
                MappingError::SourceDirMissing => entries is None,
                MappingError::NoInputFiles => entries matches Some(es) && job_files_of(
                    es@.map_values(|s: String| s@),
                ).len() == 0,
                MappingError::NotUnderSource => entries matches Some(es) && {
                    let files = job_files_of(es@.map_values(|s: String| s@));
                    files.len() > 0 && exists|k: int|
                        0 <= k < files.len() && !under_dir(#[trigger] files[k], src_dir@)
                },
            },
        },
{
    let es = match entries {
        Some(es) => es,
        None => {
            return Err(MappingError::SourceDirMissing);
        },
    };
    let files = select_job_files(&es);
    if files.len() == 0 {
        return Err(MappingError::NoInputFiles);
    }
    let remote_dir = get_dst_dir(src_dir, dst_root);
    let remotes = match get_dst_mx3(&files, src_dir, remote_dir.as_str()) {
        Ok(v) => v,
        Err(_) => {
            proof {
                let file_views = files@.map_values(|s: String| s@);
                assert(exists|k: int|
                    0 <= k < file_views.len() && !under_dir(#[trigger] file_views[k], src_dir@))
                    by {
                    let k = choose|k: int|
                        0 <= k < files@.len() && !under_dir((#[trigger] files@[k])@, src_dir@);
                    assert(file_views[k] == files@[k]@);
                }
            }
            return Err(MappingError::NotUnderSource);
        },
    };
    let mut pairs: Vec<(String, String)> = Vec::new();
    let mut i: usize = 0;
    while i < files.len()
        invariant
            0 <= i <= files@.len(),
            files@.len() == remotes@.len(),
            pairs@.len() == i,
            forall|k: int|
                0 <= k < files@.len() ==> under_dir((#[trigger] files@[k])@, src_dir@) && remotes@[k]@
                    == path_join(remote_dir@, rel_to_dir(files@[k]@, src_dir@)),
            forall|k: int|
                0 <= k < i ==> (#[trigger] pairs@[k]).0@ == files@[k]@ && pairs@[k].1@
                    == remotes@[k]@,
        decreases files@.len() - i,
    {
        pairs.push((files[i].clone(), remotes[i].clone()));
        i += 1;
    }
    proof {
        let file_views = files@.map_values(|s: String| s@);
        assert forall|k: int| 0 <= k < file_views.len() implies file_views[k] == files@[k]@ by {}
    }
    Ok(PathMapping { remote_dir, pairs })
}

/// Every remote path of a mapping lies under `dst_root` joined with the
/// source directory's name, and stripping that directory prefix from it
/// reproduces the file's path relative to the source directory.
pub proof fn lemma_remote_path_shape(src_dir: Seq<char>, dst_root: Seq<char>, local: Seq<char>)
    requires
        under_dir(local, src_dir),
    ensures
        ({
            let prefix = dst_dir_of(src_dir, dst_root) + seq!['/'];
            let remote = path_join(dst_dir_of(src_dir, dst_root), rel_to_dir(local, src_dir));
            &&& is_prefix(prefix, remote)
            &&& remote.skip(prefix.len() as int) == rel_to_dir(local, src_dir)
        }),
{
    let prefix = dst_dir_of(src_dir, dst_root) + seq!['/'];
    let rel = rel_to_dir(local, src_dir);
    let remote = path_join(dst_dir_of(src_dir, dst_root), rel);
    assert(remote.take(prefix.len() as int) =~= prefix);
    assert(remote.skip(prefix.len() as int) =~= rel);
}

/// The remote command that idempotently creates a directory: `mkdir -p`
/// succeeds whether or not the directory already exists.
pub open spec fn mkdir_command_of(dir: Seq<char>) -> Seq<char> {
    "mkdir -p "@ + dir
}

/// Builds the idempotent directory-creation command.
pub fn mkdir_command(dir: &str) -> (r: String)
    ensures
        r@ == mkdir_command_of(dir@),
{
    let mut out = "mkdir -p ".to_owned();
    out.append(dir);
    out
}

/// The results directory of a job file: the job-file extension replaced by
/// the results extension.
pub open spec fn results_dir_of(p: Seq<char>) -> Seq<char> {
    if has_job_ext(p) {
        p.take(p.len() - job_ext().len()) + results_ext()
    } else {
        p + results_ext()
    }
}

/// The scheduler name of a job file: its final path component without the
/// job-file extension.
pub open spec fn job_name_of(p: Seq<char>) -> Seq<char> {
    if has_job_ext(p) {
        base_of(p.take(p.len() - job_ext().len()))
    } else {
        base_of(p)
    }
}

/// The results directory path of the job file `p`.
pub fn results_dir(p: &str) -> (r: String)
    ensures
        r@ == results_dir_of(p@),
{
    proof {
        reveal_strlit(".mx3");
    }
    if is_job_file(p) {
        let n = p.unicode_len();
        let mut out = p.substring_char(0, n - 4).to_owned();
        out.append(".zarr");
        out
    } else {
        let mut out = p.to_owned();
        out.append(".zarr");
        out
    }
}

/// The scheduler name for the job file `p`.
pub fn job_name(p: &str) -> (r: String)
    ensures
        r@ == job_name_of(p@),
{
    proof {
        reveal_strlit(".mx3");
    }
    if is_job_file(p) {
        let n = p.unicode_len();
        let stem = p.substring_char(0, n - 4);
        crate::text::base_name(stem).to_owned()
    } else {
        crate::text::base_name(p).to_owned()
    }
}

/// The scheduler submission command for one deployed job file: the job is
/// named after the file, its output goes to the log file inside its results
/// directory, and the uploaded template runs the file.
pub open spec fn submit_command_of(p: Seq<char>, template: Seq<char>) -> Seq<char> {
    "sbatch --job-name="@ + job_name_of(p) + " --output="@ + results_dir_of(p) + "/slurm.logs "@
        + template + " "@ + p
}

/// Builds the submission command for one deployed job file.
pub fn submit_command(p: &str, template: &str) -> (r: String)
    ensures
        r@ == submit_command_of(p@, template@),
{
    let mut out = "sbatch --job-name=".to_owned();
    let name = job_name(p);
    out.append(name.as_str());
    out.append(" --output=");
    let dir = results_dir(p);
    out.append(dir.as_str());
    out.append("/slurm.logs ");
    out.append(template);
    out.append(" ");
    out.append(p);
    proof {
        assert(out@ =~= submit_command_of(p@, template@));
    }
    out
}

/// The two remote commands that launch one deployed job file, in order:
/// create its results directory, then submit it.
pub fn start_job_commands(dst_mx3: &str, template: &str) -> (r: (String, String))
    ensures
        r.0@ == mkdir_command_of(results_dir_of(dst_mx3@)),
        r.1@ == submit_command_of(dst_mx3@, template@),
{
    let dir = results_dir(dst_mx3);
    let mk = mkdir_command(dir.as_str());
    let sub = submit_command(dst_mx3, template);
    (mk, sub)
}

/// The full launch sequence for the deployed job files: for each file, in
/// order, its results-directory creation then its submission. Each command's
/// nonzero exit or transport failure aborts the remaining submissions.
pub fn launch_plan(dst_mx3: &Vec<String>, template: &str) -> (cmds: Vec<String>)
    ensures
        cmds@.len() == 2 * dst_mx3@.len(),
        forall|k: int|
            0 <= k < dst_mx3@.len() ==> cmds@[2 * k]@ == mkdir_command_of(
                results_dir_of((#[trigger] dst_mx3@[k])@),
            ) && cmds@[2 * k + 1]@ == submit_command_of(dst_mx3@[k]@, template@),
{
    let mut cmds: Vec<String> = Vec::new();
    let mut i: usize = 0;
    while i < dst_mx3.len()
        invariant
            0 <= i <= dst_mx3@.len(),
            cmds@.len() == 2 * i,
            forall|k: int|
                0 <= k < i ==> cmds@[2 * k]@ == mkdir_command_of(
                    results_dir_of((#[trigger] dst_mx3@[k])@),
                ) && cmds@[2 * k + 1]@ == submit_command_of(dst_mx3@[k]@, template@),
        decreases dst_mx3@.len() - i,
    {
        let (mk, sub) = start_job_commands(dst_mx3[i].as_str(), template);
        cmds.push(mk);
        cmds.push(sub);
        i += 1;
    }
    cmds
}

/// One step of a deployment, in order.
pub enum DeployStep {
    /// Run a remote command through the session.
    RunCommand(String),
    /// Read the local file fully and write it to the remote path through the
    /// file-transfer sub-channel.
    Upload { local: String, remote: String },
}

/// The deployment sequence for a mapping: first ensure the remote destination
/// directory exists, then upload every job file in order, then upload the
/// submission template once, under its own name, to the remote jobs root. Any
/// failing step aborts the remainder; partial transfers are left in place.
/// The step `s` uploads the local path `l` to the remote path `r`.
pub open spec fn uploads(s: DeployStep, l: Seq<char>, r: Seq<char>) -> bool {
    s matches DeployStep::Upload { local, remote } && local@ == l && remote@ == r
}

pub fn deploy_plan(mapping: &PathMapping, template_path: &str, dst_root: &str) -> (steps: Vec<
    DeployStep,
>)
    ensures
        steps@.len() == mapping.pairs@.len() + 2,
        steps@[0] matches DeployStep::RunCommand(c) && c@ == mkdir_command_of(
            mapping.remote_dir@,
        ),
        forall|k: int|
            0 <= k < mapping.pairs@.len() ==> uploads(
                steps@[k + 1],
                (#[trigger] mapping.pairs@[k]).0@,
                mapping.pairs@[k].1@,
            ),
        uploads(steps@.last(), template_path@, path_join(dst_root@, base_of(template_path@))),
{
    let mut steps: Vec<DeployStep> = Vec::new();
    let mk = mkdir_command(mapping.remote_dir.as_str());
    steps.push(DeployStep::RunCommand(mk));
    let mut i: usize = 0;
    while i < mapping.pairs.len()
        invariant
            0 <= i <= mapping.pairs@.len(),
            steps@.len() == i + 1,
            steps@[0] matches DeployStep::RunCommand(c) && c@ == mkdir_command_of(
                mapping.remote_dir@,
            ),
            forall|k: int|
                0 <= k < i ==> uploads(
                    steps@[k + 1],
                    (#[trigger] mapping.pairs@[k]).0@,
                    mapping.pairs@[k].1@,
                ),
        decreases mapping.pairs@.len() - i,
    {
        let local = mapping.pairs[i].0.clone();
        let remote = mapping.pairs[i].1.clone();
        let ghost before = steps@;
        steps.push(DeployStep::Upload { local, remote });
        proof {
            assert forall|k: int|
                0 <= k < i + 1 implies uploads(
                steps@[k + 1],
                (#[trigger] mapping.pairs@[k]).0@,
                mapping.pairs@[k].1@,
            ) by {
                if k < i {
                    assert(steps@[k + 1] == before[k + 1]);
                }
            }
        }
        i += 1;
    }
    let template_name = crate::text::base_name(template_path);
    let remote_template = join_path(dst_root, template_name);
    let ghost before = steps@;
    steps.push(
        DeployStep::Upload { local: template_path.to_owned(), remote: remote_template },
    );
    proof {
        assert forall|k: int|
            0 <= k < mapping.pairs@.len() implies uploads(
            steps@[k + 1],
            (#[trigger] mapping.pairs@[k]).0@,
            mapping.pairs@[k].1@,
        ) by {
            assert(steps@[k + 1] == before[k + 1]);
        }
    }
    steps
}

/// Why a deployment aborted before any transfer.
#[derive(Clone, Copy, PartialEq, Eq, Structural, Debug)]
pub enum DeployError {
    /// Creating the remote destination directory exited nonzero.
    DirCreateFailed,
}

/// A failed transfer of one file; the deployment aborts and partial transfers
/// stay in place.
#[derive(Clone, Copy, PartialEq, Eq, Structural, Debug)]
pub enum TransferError {
    /// The local file could not be read into memory.
    LocalRead,
    /// The remote file could not be created.
    RemoteCreate,
    /// The buffer could not be written to the remote file.
    RemoteWrite,
}

/// Accepts the outcome of the destination-directory creation: the directory
/// must exist before any transfer, so anything but exit status zero is fatal.
/// Creating a directory that already exists exits zero and changes nothing,
/// so a repeated deployment passes this check unchanged.
pub fn check_mkdir(result: &crate::ssh::RemoteCommandResult) -> (r: Result<(), DeployError>)
    ensures
        result.exit_code == 0 <==> r is Ok,
        result.exit_code != 0 <==> r == Result::<(), DeployError>::Err(
            DeployError::DirCreateFailed,
        ),
{
    if result.is_success() {
        Ok(())
    } else {
        Err(DeployError::DirCreateFailed)
    }
}

} // verus!
