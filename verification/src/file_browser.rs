//! State of the save and load dialogs: which files are listed under which
//! names, and what a click on Save or Load asks for.
use vstd::prelude::*;

use crate::text::{chars_of, owned, str_eq, string_from_chars};

verus! {

/// The state behind the save and load dialogs.
pub struct FileBrowserState {
    pub show_save_dialog: bool,
    pub show_load_dialog: bool,
    pub save_input_text: String,
    pub selected_file: Option<String>,
    pub current_directory: String,
    pub file_extension: String,
    pub dialog_title: String,
    /// The "preserve colors" checkbox of save dialogs.
    pub preserve_color: bool,
}

impl Default for FileBrowserState {
    /// Both dialogs hidden, every text empty, nothing selected.
    fn default() -> (res: Self)
        ensures
            !res.show_save_dialog,
            !res.show_load_dialog,
            res.save_input_text@.len() == 0,
            res.selected_file is None,
            res.current_directory@.len() == 0,
            res.file_extension@.len() == 0,
            res.dialog_title@.len() == 0,
            !res.preserve_color,
    {
        FileBrowserState {
            show_save_dialog: false,
            show_load_dialog: false,
            save_input_text: String::new(),
            selected_file: None,
            current_directory: String::new(),
            file_extension: String::new(),
            dialog_title: String::new(),
            preserve_color: false,
        }
    }
}

/// `s` with every trailing copy of `suffix` removed.
pub open spec fn trim_suffixes(s: Seq<char>, suffix: Seq<char>) -> Seq<char>
    decreases s.len(),
{
    if suffix.len() > 0 && suffix.len() <= s.len() && s.skip(s.len() - suffix.len()) == suffix {
        trim_suffixes(s.take(s.len() - suffix.len()), suffix)
    } else {
        s
    }
}

/// The name under which a file is listed: its file name without the
/// trailing `.` and extension (repeated ones too).
pub open spec fn display_name_of(file_name: Seq<char>, extension: Seq<char>) -> Seq<char> {
    trim_suffixes(file_name, seq!['.'] + extension)
}

/// Whether `cs[from..to]` ends with `suffix`.
fn ends_with_at(cs: &Vec<char>, to: usize, suffix: &Vec<char>) -> (res: bool)
    requires
        to <= cs@.len(),
    ensures
        res == (suffix@.len() <= to && cs@.take(to as int).skip(to - suffix@.len()) == suffix@),
{
    if suffix.len() > to {
        return false;
    }
    let start = to - suffix.len();
    let mut i: usize = 0;
    while i < suffix.len()
        invariant
            to <= cs@.len(),
            start == to - suffix@.len(),
            i <= suffix@.len(),
            forall|k: int| 0 <= k < i ==> cs@[start + k] == suffix@[k],
        decreases suffix@.len() - i,
    {
        if cs[start + i] != suffix[i] {
            assert(cs@.take(to as int).skip(start as int)[i as int] != suffix@[i as int]);
            return false;
        }
        i += 1;
    }
    assert(cs@.take(to as int).skip(start as int) =~= suffix@);
    true
}

impl FileBrowserState {
    /// A browser over `directory` below `project_root`, for files with the
    /// given extension.
    pub fn new(project_root: &str, directory: &str, extension: &str, title: &str) -> (res: Self)
        ensures
            res.current_directory@ == project_root@ + seq!['/'] + directory@,
            res.file_extension@ == extension@,
            res.dialog_title@ == title@,
            !res.show_save_dialog,
            !res.show_load_dialog,
            res.save_input_text@.len() == 0,
            res.selected_file is None,
            !res.preserve_color,
    {
        let mut dir = owned(project_root);
        crate::text::push_char(&mut dir, '/');
        let dir = dir.concat(directory);
        FileBrowserState {
            show_save_dialog: false,
            show_load_dialog: false,
            save_input_text: String::new(),
            selected_file: None,
            current_directory: dir,
            file_extension: owned(extension),
            dialog_title: owned(title),
            preserve_color: false,
        }
    }

    /// Opens the save dialog under `title`, with an empty file name and
    /// nothing selected.
    pub fn show_save(&mut self, title: &str)
        ensures
            final(self).dialog_title@ == title@,
            final(self).show_save_dialog,
            final(self).selected_file is None,
            final(self).save_input_text@.len() == 0,
            final(self).show_load_dialog == old(self).show_load_dialog,
            final(self).current_directory == old(self).current_directory,
            final(self).file_extension == old(self).file_extension,
            final(self).preserve_color == old(self).preserve_color,
    {
        self.dialog_title = owned(title);
        self.show_save_dialog = true;
        self.selected_file = None;
        self.save_input_text = String::new();
    }

    /// Opens the load dialog under `title`, with nothing selected.
    pub fn show_load(&mut self, title: &str)
        ensures
            final(self).dialog_title@ == title@,
            final(self).show_load_dialog,
            final(self).selected_file is None,
            final(self).save_input_text == old(self).save_input_text,
            final(self).show_save_dialog == old(self).show_save_dialog,
            final(self).current_directory == old(self).current_directory,
            final(self).file_extension == old(self).file_extension,
            final(self).preserve_color == old(self).preserve_color,
    {
        self.dialog_title = owned(title);
        self.show_load_dialog = true;
        self.selected_file = None;
    }

    /// How a file of the browsed directory is listed: its display name and
    /// its full path.
    pub fn file_entry(&self, file_name: &str) -> (res: (String, String))
        ensures
            res.0@ == display_name_of(file_name@, self.file_extension@),
            res.1@ == self.current_directory@ + seq!['/'] + file_name@,
    {
        let cs = chars_of(file_name);
        let mut suffix: Vec<char> = Vec::new();
        suffix.push('.');
        let ext = chars_of(self.file_extension.as_str());
        let mut i: usize = 0;
        while i < ext.len()
            invariant
                i <= ext@.len(),
                suffix@ == seq!['.'] + ext@.take(i as int),
            decreases ext@.len() - i,
        {
            suffix.push(ext[i]);
            proof {
                assert(ext@.take(i + 1) =~= ext@.take(i as int).push(ext@[i as int]));
            }
            i += 1;
        }
        assert(ext@.take(ext@.len() as int) =~= ext@);
        let ghost target = display_name_of(cs@, ext@);
        let mut end = cs.len();
        assert(cs@.take(end as int) =~= cs@);
        while ends_with_at(&cs, end, &suffix)
            invariant
                end <= cs@.len(),
                suffix@.len() > 0,
                trim_suffixes(cs@.take(end as int), suffix@) == target,
            decreases end,
        {
            proof {
                assert(cs@.take(end as int).take(end - suffix@.len()) =~= cs@.take(end - suffix@.len()));
            }
            end = end - suffix.len();
        }
        let name = string_from_chars(&cs, 0, end);
        let mut path = owned(self.current_directory.as_str());
        crate::text::push_char(&mut path, '/');
        let path = path.concat(file_name);
        proof {
            assert(name@ =~= cs@.take(end as int));
        }
        (name, path)
    }

    /// The file name that a click on Save writes to: the typed name, unless
    /// it is empty.
    pub fn save_target(&self) -> (res: Option<String>)
        ensures
            self.save_input_text@.len() > 0 ==> (res matches Some(n) && n@ == self.save_input_text@),
            self.save_input_text@.len() == 0 ==> res is None,
    {
        if self.save_input_text.as_str().is_empty() {
            None
        } else {
            Some(owned(self.save_input_text.as_str()))
        }
    }

    /// Picks a listed file in the save dialog: it becomes the typed name.
    pub fn select_save_file(&mut self, display_name: &str)
        ensures
            final(self).selected_file matches Some(s) && s@ == display_name@,
            final(self).save_input_text@ == display_name@,
            final(self).show_save_dialog == old(self).show_save_dialog,
            final(self).show_load_dialog == old(self).show_load_dialog,
            final(self).current_directory == old(self).current_directory,
            final(self).file_extension == old(self).file_extension,
    {
        self.selected_file = Some(owned(display_name));
        self.save_input_text = owned(display_name);
    }

    /// Closes the save dialog (after Save or Cancel) and forgets the
    /// selection.
    pub fn close_save_dialog(&mut self)
        ensures
            !final(self).show_save_dialog,
            final(self).selected_file is None,
            final(self).save_input_text == old(self).save_input_text,
            final(self).show_load_dialog == old(self).show_load_dialog,
            final(self).current_directory == old(self).current_directory,
            final(self).file_extension == old(self).file_extension,
    {
        self.show_save_dialog = false;
        self.selected_file = None;
    }

    /// Picks a listed file in the load dialog.
    pub fn select_load_file(&mut self, display_name: &str)
        ensures
            final(self).selected_file matches Some(s) && s@ == display_name@,
            final(self).save_input_text == old(self).save_input_text,
            final(self).show_save_dialog == old(self).show_save_dialog,
            final(self).show_load_dialog == old(self).show_load_dialog,
            final(self).current_directory == old(self).current_directory,
            final(self).file_extension == old(self).file_extension,
    {
        self.selected_file = Some(owned(display_name));
    }

    /// Whether `display_name` is the selected file.
    pub fn is_selected(&self, display_name: &str) -> (res: bool)
        ensures
            res == (self.selected_file matches Some(s) && s@ == display_name@),
    {
        match &self.selected_file {
            Some(s) => str_eq(s.as_str(), display_name),
            None => false,
        }
    }

    /// The path that a click on Load opens: that of the first listed file
    /// whose display name is the selected one.
    pub fn load_target(&self, files: &Vec<(String, String)>) -> (res: Option<String>)
        ensures
            match self.selected_file {
                None => res is None,
                Some(s) => match res {
                    Some(p) => exists|k: int|
                        0 <= k < files@.len() && files@[k].0@ == s@ && p@ == files@[k].1@ && forall|j: int|
                            0 <= j < k ==> files@[j].0@ != s@,
                    None => forall|k: int| 0 <= k < files@.len() ==> files@[k].0@ != s@,
                },
            },
    {
        match &self.selected_file {
            None => None,
            Some(s) => {
                let mut i: usize = 0;
                while i < files.len()
                    invariant
                        i <= files@.len(),
                        self.selected_file == Some(*s),
                        forall|k: int| 0 <= k < i ==> files@[k].0@ != s@,
                    decreases files@.len() - i,
                {
                    if str_eq(files[i].0.as_str(), s.as_str()) {
                        return Some(owned(files[i].1.as_str()));
                    }
                    i += 1;
                }
                None
            },
        }
    }

    /// Closes the load dialog (after a load or Cancel) and forgets the
    /// selection.
    pub fn close_load_dialog(&mut self)
        ensures
            !final(self).show_load_dialog,
            final(self).selected_file is None,
            final(self).save_input_text == old(self).save_input_text,
            final(self).show_save_dialog == old(self).show_save_dialog,
            final(self).current_directory == old(self).current_directory,
            final(self).file_extension == old(self).file_extension,
    {
        self.show_load_dialog = false;
        self.selected_file = None;
    }
}

/// A listed name never ends with `.` and the extension: every trailing copy
/// is removed.
pub proof fn law_display_name_has_no_extension(file_name: Seq<char>, extension: Seq<char>)
    ensures
        !(seq!['.'] + extension).is_suffix_of(display_name_of(file_name, extension)),
{
    lemma_trim_suffixes_done(file_name, seq!['.'] + extension);
}

proof fn lemma_trim_suffixes_done(s: Seq<char>, suffix: Seq<char>)
    requires
        suffix.len() > 0,
    ensures
        !suffix.is_suffix_of(trim_suffixes(s, suffix)),
    decreases s.len(),
{
    if suffix.len() <= s.len() && s.skip(s.len() - suffix.len()) == suffix {
        lemma_trim_suffixes_done(s.take(s.len() - suffix.len()), suffix);
    } else {
        let t = trim_suffixes(s, suffix);
        if suffix.is_suffix_of(t) {
            assert(t.subrange(t.len() - suffix.len(), t.len() as int) =~= t.skip(t.len() - suffix.len()));
        }
    }
}

} // verus!
