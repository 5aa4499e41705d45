pub mod twine;
