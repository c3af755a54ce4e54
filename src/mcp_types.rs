//! The records that the task server's MCP tools answer with.
use vstd::prelude::*;

verus! {

/// A project, as the task server reads it: identifiers and times as text.
#[derive(Clone, Debug, PartialEq)]
pub struct Project {
    pub id: String,
    pub name: String,
    pub git_repo_path: String,
    pub setup_script: Option<String>,
    pub cleanup_script: Option<String>,
    pub dev_script: Option<String>,
    /// RFC 3339.
    pub created_at: String,
    /// RFC 3339.
    pub updated_at: String,
}

/// A task, as the task server reads it.
#[derive(Clone, Debug, PartialEq)]
pub struct Task {
    pub id: String,
    pub title: String,
    pub description: Option<String>,
    pub status: String,
    pub created_at: String,
    pub updated_at: String,
}

/// A task with what its attempts say about it.
#[derive(Clone, Debug, PartialEq)]
pub struct TaskWithAttemptStatus {
    pub task: Task,
    pub has_in_progress_attempt: bool,
    pub has_merged_attempt: bool,
    pub last_attempt_failed: bool,
}

#[derive(Clone, Debug, PartialEq)]
pub struct CreateTaskResponse {
    pub task_id: String,
}

#[derive(Clone, Debug, PartialEq)]
pub struct ProjectSummary {
    pub id: String,
    pub name: String,
    pub git_repo_path: String,
    pub setup_script: Option<String>,
    pub cleanup_script: Option<String>,
    pub dev_script: Option<String>,
    pub created_at: String,
    pub updated_at: String,
}

impl ProjectSummary {
    pub fn from_project(project: Project) -> (r: ProjectSummary)
        ensures
            r.id == project.id,
            r.name == project.name,
            r.git_repo_path == project.git_repo_path,
            r.setup_script == project.setup_script,
            r.cleanup_script == project.cleanup_script,
            r.dev_script == project.dev_script,
            r.created_at == project.created_at,
            r.updated_at == project.updated_at,
    {
        ProjectSummary {
            id: project.id,
            name: project.name,
            git_repo_path: project.git_repo_path,
            setup_script: project.setup_script,
            cleanup_script: project.cleanup_script,
            dev_script: project.dev_script,
            created_at: project.created_at,
            updated_at: project.updated_at,
        }
    }
}

#[derive(Clone, Debug, PartialEq)]
pub struct ListProjectsResponse {
    pub projects: Vec<ProjectSummary>,
    pub count: usize,
}

#[derive(Clone, Debug, PartialEq)]
pub struct TaskSummary {
    pub id: String,
    pub title: String,
    pub status: String,
    pub created_at: String,
    pub updated_at: String,
    pub has_in_progress_attempt: Option<bool>,
    pub has_merged_attempt: Option<bool>,
    pub last_attempt_failed: Option<bool>,
}

impl TaskSummary {
    pub fn from_task_with_status(task: TaskWithAttemptStatus) -> (r: TaskSummary)
        ensures
            r.id == task.task.id,
            r.title == task.task.title,
            r.status == task.task.status,
            r.created_at == task.task.created_at,
            r.updated_at == task.task.updated_at,
            r.has_in_progress_attempt == Some(task.has_in_progress_attempt),
            r.has_merged_attempt == Some(task.has_merged_attempt),
            r.last_attempt_failed == Some(task.last_attempt_failed),
    {
        TaskSummary {
            id: task.task.id,
            title: task.task.title,
            status: task.task.status,
            created_at: task.task.created_at,
            updated_at: task.task.updated_at,
            has_in_progress_attempt: Some(task.has_in_progress_attempt),
            has_merged_attempt: Some(task.has_merged_attempt),
            last_attempt_failed: Some(task.last_attempt_failed),
        }
    }
}

#[derive(Clone, Debug, PartialEq)]
pub struct TaskDetails {
    pub id: String,
    pub title: String,
    pub description: Option<String>,
    pub status: String,
    pub created_at: String,
    pub updated_at: String,
    pub has_in_progress_attempt: Option<bool>,
    pub has_merged_attempt: Option<bool>,
    pub last_attempt_failed: Option<bool>,
}

impl TaskDetails {
    pub fn from_task(task: Task) -> (r: TaskDetails)
        ensures
            r.id == task.id,
            r.title == task.title,
            r.description == task.description,
            r.status == task.status,
            r.created_at == task.created_at,
            r.updated_at == task.updated_at,
            r.has_in_progress_attempt is None,
            r.has_merged_attempt is None,
            r.last_attempt_failed is None,
    {
        TaskDetails {
            id: task.id,
            title: task.title,
            description: task.description,
            status: task.status,
            created_at: task.created_at,
            updated_at: task.updated_at,
            has_in_progress_attempt: None,
            has_merged_attempt: None,
            last_attempt_failed: None,
        }
    }
}

#[derive(Clone, Debug, PartialEq)]
pub struct ListTasksFilters {
    pub status: Option<String>,
    pub limit: i32,
}

#[derive(Clone, Debug, PartialEq)]
pub struct ListTasksResponse {
    pub tasks: Vec<TaskSummary>,
    pub count: usize,
    pub project_id: String,
    pub applied_filters: ListTasksFilters,
}

#[derive(Clone, Debug, PartialEq)]
pub struct UpdateTaskResponse {
    pub task: TaskDetails,
}

#[derive(Clone, Debug, PartialEq)]
pub struct StartTaskAttemptResponse {
    pub task_id: String,
    pub attempt_id: String,
}

#[derive(Clone, Debug, PartialEq)]
pub struct DeleteTaskResponse {
    pub deleted_task_id: Option<String>,
}

#[derive(Clone, Debug, PartialEq)]
pub struct GetTaskResponse {
    pub task: TaskDetails,
}

#[derive(Clone, Debug, PartialEq)]
pub struct StopTaskAttemptResponse {
    pub stopped: bool,
    pub attempt_id: String,
}

#[derive(Clone, Debug, PartialEq)]
pub struct MergeTaskAttemptResponse {
    pub success: bool,
}

#[derive(Clone, Debug, PartialEq)]
pub struct DeleteProjectResponse {
    pub deleted: bool,
    pub project_id: String,
}

#[derive(Clone, Debug, PartialEq)]
pub struct CreateProjectRequest {
    pub name: String,
    pub git_repo_path: String,
    pub setup_script: Option<String>,
    pub cleanup_script: Option<String>,
    pub dev_script: Option<String>,
}

#[derive(Clone, Debug, PartialEq)]
pub struct UploadImageRequest {
    /// Base64.
    pub data: String,
    pub mime_type: String,
}

#[derive(Clone, Debug, PartialEq)]
pub struct ValidateOmniConfigRequest {
    pub host: String,
    pub api_key: String,
}

} // verus!
