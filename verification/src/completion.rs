use crate::text::chars_of;
use vstd::prelude::*;
use vstd::string::StringSliceAdditionalSpecFns;

verus! {

/// The characters that make `shell_words::quote` quote a word.
pub open spec fn is_shell_special(c: char) -> bool {
    c == '\n' || c == '\'' || c == '|' || c == '&' || c == ';' || c == '<' || c == '>' || c
        == '(' || c == ')' || c == '$' || c == '`' || c == '\\' || c == '"' || c == ' ' || c
        == '\t' || c == '*' || c == '?' || c == '[' || c == '#' || c == '~' || c == '=' || c
        == '%'
}

/// `s` with each single quote replaced by `'\''`.
pub open spec fn escape_single_quotes(s: Seq<char>) -> Seq<char>
    decreases s.len(),
{
    if s.len() == 0 {
        Seq::empty()
    } else {
        escape_single_quotes(s.drop_last()) + if s.last() == '\'' {
            seq!['\'', '\\', '\'', '\'']
        } else {
            seq![s.last()]
        }
    }
}

/// What `shell_words::quote` makes of `s`: a word with no special
/// character is kept as it is; the empty word, and a word whose only
/// special characters include a newline but no single quote, are put
/// between single quotes; any other word is put between single quotes with
/// its own single quotes escaped.
pub open spec fn shell_quoted(s: Seq<char>) -> Seq<char> {
    if s.len() == 0 {
        seq!['\'', '\'']
    } else if !(exists|i: int| 0 <= i < s.len() && is_shell_special(#[trigger] s[i])) {
        s
    } else if s.contains('\n') && !s.contains('\'') {
        seq!['\''] + s + seq!['\'']
    } else {
        seq!['\''] + escape_single_quotes(s) + seq!['\'']
    }
}

/// `shell_words::quote`: `s` quoted so that a shell reads it back as one
/// word, as `shell_quoted` describes.
#[verifier::external_body]
fn quote_word(s: &str) -> (r: String)
    ensures
        r@ == shell_quoted(s@),
{
    shell_words::quote(s).into_owned()
}

/// The directory that contains `path`, as `std::path::Path::parent` gives
/// it; `None` for a path that ends in a root or is empty.
pub uninterp spec fn path_parent(path: Seq<char>) -> Option<Seq<char>>;

/// `std::path::Path::parent` of `path`, as text (the parent of a path
/// given as UTF-8 text is a prefix of it, so the conversion loses nothing).
/// Its result is named, not described.
#[verifier::external_body]
fn parent_of(path: &str) -> (r: Option<String>)
    ensures
        match r {
            Some(p) => path_parent(path@) == Some(p@),
            None => path_parent(path@) is None,
        },
{
    match std::path::Path::new(path).parent() {
        Some(parent) => Some(parent.to_string_lossy().into_owned()),
        None => None,
    }
}

/// The text that introduces a path to complete.
pub open spec fn load_prefix() -> Seq<char> {
    seq!['l', 'o', 'a', 'd', ' ']
}

/// The directory whose entries complete `path`.
pub open spec fn directory_of(path: Seq<char>) -> Option<Seq<char>> {
    if path == Seq::<char>::empty() || path == seq!['.'] {
        Some(seq!['.'])
    } else if path == seq!['.', '.'] {
        Some(seq!['.', '.'])
    } else if path == seq!['/'] {
        Some(seq!['/'])
    } else {
        path_parent(path)
    }
}

/// The command names that start with `typed`, quoted, in the order given.
pub open spec fn matching_commands(names: Seq<Seq<char>>, typed: Seq<char>) -> Seq<Seq<char>>
    decreases names.len(),
{
    if names.len() == 0 {
        Seq::empty()
    } else {
        let found = matching_commands(names.drop_last(), typed);
        if typed.is_prefix_of(names.last()) {
            found.push(shell_quoted(names.last()))
        } else {
            found
        }
    }
}

/// A lone candidate gets a trailing space, so that the next word can be
/// typed at once.
pub open spec fn space_if_single(found: Seq<Seq<char>>) -> Seq<Seq<char>> {
    if found.len() == 1 {
        seq![found[0].push(' ')]
    } else {
        found
    }
}

/// How the text before the cursor is completed.
pub enum Completion {
    /// The text is `load ` followed by a path: complete it with the entries
    /// of this directory; `None` when the path has no parent directory.
    ListDirectory(Option<String>),
    /// Replace the line with one of these candidates.
    Candidates(Vec<String>),
}

pub enum CompletionView {
    ListDirectory(Option<Seq<char>>),
    Candidates(Seq<Seq<char>>),
}

impl View for Completion {
    type V = CompletionView;

    open spec fn view(&self) -> CompletionView {
        match self {
            Completion::ListDirectory(dir) => CompletionView::ListDirectory(
                match dir {
                    Some(d) => Some(d@),
                    None => None,
                },
            ),
            Completion::Candidates(found) => CompletionView::Candidates(
                found@.map_values(|s: String| s@),
            ),
        }
    }
}

/// The completion of `before`, the text left of the cursor, given the
/// shell's command names: a path after `load `, a command name while no
/// space has been typed, nothing otherwise.
pub open spec fn completion_of(before: Seq<char>, names: Seq<Seq<char>>) -> CompletionView {
    if load_prefix().is_prefix_of(before) {
        CompletionView::ListDirectory(directory_of(before.skip(5)))
    } else if !before.contains(' ') {
        CompletionView::Candidates(space_if_single(matching_commands(names, before)))
    } else {
        CompletionView::Candidates(Seq::empty())
    }
}

/// The text of `line` left of byte position `pos`.
pub open spec fn text_before(line: &str, pos: int) -> Seq<char> {
    vstd::utf8::decode_utf8(line.spec_bytes().subrange(0, pos))
}

/// Whether `a` starts with `b`.
fn starts_with(a: &Vec<char>, b: &Vec<char>) -> (r: bool)
    ensures
        r == b@.is_prefix_of(a@),
{
    if b.len() > a.len() {
        return false;
    }
    let mut i: usize = 0;
    while i < b.len()
        invariant
            b@.len() <= a@.len(),
            i <= b@.len(),
            forall|j: int| 0 <= j < i ==> a@[j] == b@[j],
        decreases b@.len() - i,
    {
        if a[i] != b[i] {
            assert(a@.subrange(0, b@.len() as int)[i as int] != b@[i as int]);
            return false;
        }
        i = i + 1;
    }
    assert(b@ =~= a@.subrange(0, b@.len() as int));
    true
}

/// Completes the text left of byte position `pos` of `line`, given the
/// shell's command names.
pub fn complete(line: &str, pos: usize, names: &Vec<String>) -> (r: Completion)
    requires
        vstd::utf8::is_char_boundary(line.spec_bytes(), pos as int),
    ensures
        r@ == completion_of(text_before(line, pos as int), names@.map_values(|s: String| s@)),
{
    let (head, _) = line.split_at(pos);
    proof {
        vstd::utf8::encode_utf8_decode_utf8(head@);
        assert(head@ == text_before(line, pos as int));
    }
    let before = chars_of(head);
    let n = before.len();
    let load = chars_of("load ");
    proof {
        reveal_strlit("load ");
        assert(load@ =~= load_prefix());
    }
    if starts_with(&before, &load) {
        let path = head.substring_char(5, n);
        let dir: Option<String> = if n == 5 || (n == 6 && before[5] == '.') {
            Some(".".to_owned())
        } else if n == 7 && before[5] == '.' && before[6] == '.' {
            Some("..".to_owned())
        } else if n == 6 && before[5] == '/' {
            Some("/".to_owned())
        } else {
            parent_of(path)
        };
        proof {
            reveal_strlit(".");
            reveal_strlit("..");
            reveal_strlit("/");
            let p = before@.skip(5);
            assert(path@ =~= p);
            if n == 5 {
                assert(p =~= Seq::<char>::empty());
            } else if n == 6 && before@[5] == '.' {
                assert(p =~= seq!['.']);
            } else if n == 7 && before@[5] == '.' && before@[6] == '.' {
                assert(p =~= seq!['.', '.']);
            } else if n == 6 && before@[5] == '/' {
                assert(p =~= seq!['/']);
            } else {
                assert(p.len() >= 1 ==> p[0] == before@[5]);
                assert(p.len() >= 2 ==> p[1] == before@[6]);
                assert(p != Seq::<char>::empty());
                assert(seq!['.'][0] == '.' && seq!['/'][0] == '/');
                assert(seq!['.', '.'][0] == '.' && seq!['.', '.'][1] == '.');
                assert(p != seq!['.'] && p != seq!['/'] && p != seq!['.', '.']);
            }
            assert(dir matches Some(d) ==> directory_of(p) == Some(d@));
            assert(dir is None ==> directory_of(p) is None);
        }
        return Completion::ListDirectory(dir);
    }
    let mut i: usize = 0;
    while i < n
        invariant
            n == before@.len(),
            before@ == text_before(line, pos as int),
            !load_prefix().is_prefix_of(before@),
            i <= n,
            forall|j: int| 0 <= j < i ==> before@[j] != ' ',
        decreases n - i,
    {
        if before[i] == ' ' {
            assert(before@.contains(' '));
            let none: Vec<String> = Vec::new();
            assert(none@.map_values(|s: String| s@) =~= Seq::<Seq<char>>::empty());
            return Completion::Candidates(none);
        }
        i = i + 1;
    }
    assert(!before@.contains(' '));
    let ghost all = names@.map_values(|s: String| s@);
    let mut found: Vec<String> = Vec::new();
    let mut k: usize = 0;
    assert(all.take(0) =~= Seq::<Seq<char>>::empty());
    while k < names.len()
        invariant
            k <= names@.len(),
            all == names@.map_values(|s: String| s@),
            found@.map_values(|s: String| s@) == matching_commands(all.take(k as int), before@),
        decreases names@.len() - k,
    {
        let name = chars_of(names[k].as_str());
        assert(all.take(k + 1).drop_last() =~= all.take(k as int));
        assert(all.take(k + 1).last() == name@);
        if starts_with(&name, &before) {
            let quoted = quote_word(names[k].as_str());
            let ghost prev = found@;
            found.push(quoted);
            assert(found@.map_values(|s: String| s@) =~= prev.map_values(|s: String| s@).push(
                quoted@,
            ));
        }
        k = k + 1;
    }
    assert(all.take(names@.len() as int) =~= all);
    if found.len() == 1 {
        let single = found.pop().unwrap();
        proof {
            reveal_strlit(" ");
        }
        let ghost single_text = single@;
        assert(single_text == matching_commands(all, before@)[0]);
        let spaced = single.concat(" ");
        assert(spaced@ =~= single_text.push(' '));
        let mut one: Vec<String> = Vec::new();
        one.push(spaced);
        assert(one@.map_values(|s: String| s@) =~= space_if_single(matching_commands(all, before@)));
        Completion::Candidates(one)
    } else {
        Completion::Candidates(found)
    }
}

} // verus!
