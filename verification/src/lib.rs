//! Deploys local simulation input files to a remote HPC cluster over one SSH
//! session, submits each as a scheduler job, and manages live tunnels into
//! the running jobs' dashboards.
//!
//! The library holds the decisions: how local paths map onto the remote jobs
//! root, which remote commands are issued and in what order, how the
//! discovery and metadata output is read, how local ports are handed out,
//! and how each step of connecting and running commands is judged. The
//! embedding application performs the outside work — the file transfers, the
//! network, the terminal — and feeds plain values back in.

pub mod config;
pub mod logging;
pub mod queue;
pub mod ssh;
pub mod text;
pub mod tunnel;
