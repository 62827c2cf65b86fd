use vstd::prelude::*;

verus! {

/// A parsed command line.
#[derive(Debug)]
pub struct Cli {
    pub cmd: Command,
}

/// The verbs of the command line, with their arguments.
#[derive(Debug)]
pub enum Command {
    /// List installed modules and their capabilities.
    Modules,
    /// Install a module from a directory into the discovery path.
    Install { module_dir: String, force: bool },
    /// Search a library for books.
    Search { query: String, module: Option<String>, limit: u16, json: bool },
    /// List browsable categories/collections of a library.
    Categories { module: Option<String> },
    /// Browse a library's category.
    List { category: String, module: Option<String>, limit: u16 },
    /// Show details and available formats for a book.
    Show { book_id: String, module: Option<String> },
    /// Download a book in a given format.
    Download { book_id: String, format: String, module: Option<String>, dir: Option<String>, force: bool },
}

} // verus!
