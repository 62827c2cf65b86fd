use vstd::prelude::*;

verus! {

/// One ebook, in the normalized shape every library module returns.
#[derive(Debug, Clone)]
pub struct Book {
    pub id: String,
    pub title: String,
    pub authors: Vec<String>,
    pub languages: Vec<String>,
    pub published: Option<i64>,
    pub description: Option<String>,
    pub categories: Vec<String>,
    pub formats: Vec<Format>,
}

/// One downloadable format of a book.
#[derive(Debug, Clone)]
pub struct Format {
    pub format: String,
    pub url: String,
    pub size: Option<u64>,
}

/// A browsable category or collection of a library.
#[derive(Debug, Clone)]
pub struct Category {
    pub id: String,
    pub title: String,
}

/// The result of the `search` and `list` methods.
#[derive(Debug)]
pub struct BooksResponse {
    pub books: Vec<Book>,
    pub total: Option<u64>,
}

/// The result of the `categories` method.
#[derive(Debug)]
pub struct CategoriesResponse {
    pub categories: Vec<Category>,
}

/// The result of the `book` method.
#[derive(Debug)]
pub struct BookResponse {
    pub book: Book,
}

/// The filename extension for a format tag. The canonical tags (epub, azw3,
/// mobi, kepub, txt, html) are their own extensions, and any other tag is
/// taken as a literal extension.
pub fn extension_for(format: &str) -> (ext: &str)
    ensures
        ext@ == format@,
{
    format
}

} // verus!
