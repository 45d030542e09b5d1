//! The state of the terminal IDE: editor buffer, file browser and command
//! palette. Reading and writing files is left to the caller, who hands in
//! what was read and is told what to write.

use vstd::prelude::*;
use crate::text::{
    chars_of, contains, contains_chars, debug_text, lowercase_text, str_debug, str_to_lowercase,
    texts,
};

verus! {

/// `std::io::Error`, as an opaque type: the result type of the actions
/// names it, and no action ever makes one.
#[verifier::external_type_specification]
#[verifier::external_body]
pub struct ExIoError(std::io::Error);

/// Whether `prefix` is the start of `text` and shorter than it.
/// A path without its last component is such a start of the path, and a
/// directory above another one is such a start of its path.
pub open spec fn is_strict_prefix(prefix: Seq<char>, text: Seq<char>) -> bool {
    prefix.len() < text.len() && text.subrange(0, prefix.len() as int) == prefix
}

/// What a command does.
#[derive(Clone, Debug)]
pub enum CommandAction {
    /// Open file
    OpenFile,
    /// Save file
    SaveFile,
    /// Build project
    Build,
    /// Run project
    Run,
    /// Format code
    Format,
    /// Show Git status
    GitStatus,
    /// Quit IDE
    Quit,
}

/// A command of the palette.
#[derive(Clone, Debug)]
pub struct Command {
    pub name: String,
    pub description: String,
    pub action: CommandAction,
}

/// The mathematical value of a [`Command`].
pub struct CommandView {
    pub name: Seq<char>,
    pub description: Seq<char>,
    pub action: CommandAction,
}

impl View for Command {
    type V = CommandView;

    open spec fn view(&self) -> CommandView {
        CommandView { name: self.name@, description: self.description@, action: self.action }
    }
}

/// The values of a run of commands, in order.
pub open spec fn command_views(commands: Seq<Command>) -> Seq<CommandView> {
    commands.map_values(|command: Command| command@)
}

/// The values of a run of borrowed commands, in order.
pub open spec fn borrowed_command_views(commands: Seq<&Command>) -> Seq<CommandView> {
    commands.map_values(|command: &Command| command@)
}

/// The commands that every palette offers.
pub open spec fn standard_commands() -> Seq<CommandView> {
    seq![
        CommandView {
            name: "Open File"@,
            description: "Open a file for editing"@,
            action: CommandAction::OpenFile,
        },
        CommandView {
            name: "Save File"@,
            description: "Save the current file"@,
            action: CommandAction::SaveFile,
        },
        CommandView {
            name: "Build"@,
            description: "Build the current project"@,
            action: CommandAction::Build,
        },
        CommandView {
            name: "Run"@,
            description: "Run the current project"@,
            action: CommandAction::Run,
        },
        CommandView {
            name: "Format"@,
            description: "Format the current file"@,
            action: CommandAction::Format,
        },
        CommandView {
            name: "Git Status"@,
            description: "Show Git status"@,
            action: CommandAction::GitStatus,
        },
        CommandView { name: "Quit"@, description: "Exit the IDE"@, action: CommandAction::Quit },
    ]
}

/// Whether a command answers a query: the query is empty, or its lowercase
/// form stands in the lowercase form of the command's name or description.
pub open spec fn answers(command: CommandView, query: Seq<char>) -> bool {
    ||| query.len() == 0
    ||| contains(lowercase_text(command.name), lowercase_text(query))
    ||| contains(lowercase_text(command.description), lowercase_text(query))
}

/// The commands that answer a query, in their order.
pub open spec fn answering(commands: Seq<CommandView>, query: Seq<char>) -> Seq<CommandView> {
    commands.filter(|command: CommandView| answers(command, query))
}

/// The mathematical value of a [`CommandPalette`].
pub struct PaletteView {
    pub query: Seq<char>,
    pub commands: Seq<CommandView>,
    pub selected: nat,
    pub visible: bool,
}

/// Command palette for quick actions.
pub struct CommandPalette {
    query: String,
    commands: Vec<Command>,
    selected: usize,
    visible: bool,
}

impl View for CommandPalette {
    type V = PaletteView;

    closed spec fn view(&self) -> PaletteView {
        PaletteView {
            query: self.query@,
            commands: command_views(self.commands@),
            selected: self.selected as nat,
            visible: self.visible,
        }
    }
}

impl CommandPalette {
    /// A hidden palette with the standard commands, the first one selected
    /// and no query.
    pub fn new() -> (palette: CommandPalette)
        ensures
            palette@ == (PaletteView {
                query: Seq::empty(),
                commands: standard_commands(),
                selected: 0,
                visible: false,
            }),
    {
        let mut commands: Vec<Command> = Vec::new();
        commands.push(
            Command {
                name: String::from_str("Open File"),
                description: String::from_str("Open a file for editing"),
                action: CommandAction::OpenFile,
            },
        );
        commands.push(
            Command {
                name: String::from_str("Save File"),
                description: String::from_str("Save the current file"),
                action: CommandAction::SaveFile,
            },
        );
        commands.push(
            Command {
                name: String::from_str("Build"),
                description: String::from_str("Build the current project"),
                action: CommandAction::Build,
            },
        );
        commands.push(
            Command {
                name: String::from_str("Run"),
                description: String::from_str("Run the current project"),
                action: CommandAction::Run,
            },
        );
        commands.push(
            Command {
                name: String::from_str("Format"),
                description: String::from_str("Format the current file"),
                action: CommandAction::Format,
            },
        );
        commands.push(
            Command {
                name: String::from_str("Git Status"),
                description: String::from_str("Show Git status"),
                action: CommandAction::GitStatus,
            },
        );
        commands.push(
            Command {
                name: String::from_str("Quit"),
                description: String::from_str("Exit the IDE"),
                action: CommandAction::Quit,
            },
        );
        assert(command_views(commands@) =~= standard_commands());

        CommandPalette { query: String::new(), commands, selected: 0, visible: false }
    }

    /// Replaces the query.
    pub fn set_query(&mut self, query: String)
        ensures
            final(self)@ == (PaletteView { query: query@, ..old(self)@ }),
    {
        self.query = query;
    }

    /// Moves the selection.
    pub fn select(&mut self, index: usize)
        ensures
            final(self)@ == (PaletteView { selected: index as nat, ..old(self)@ }),
    {
        self.selected = index;
    }

    /// Whether the palette is shown.
    pub fn is_visible(&self) -> (visible: bool)
        ensures
            visible == self@.visible,
    {
        self.visible
    }

    /// All commands of the palette.
    pub fn commands(&self) -> (commands: &[Command])
        ensures
            command_views(commands@) == self@.commands,
    {
        self.commands.as_slice()
    }

    /// Whether the lowercase form of a command's name or description holds
    /// `query`.
    fn answers_query(command: &Command, query: &Vec<char>) -> (r: bool)
        ensures
            r == (contains(lowercase_text(command.name@), query@) || contains(
                lowercase_text(command.description@),
                query@,
            )),
    {
        let name = chars_of(str_to_lowercase(command.name.as_str()).as_str());
        if contains_chars(name.as_slice(), query.as_slice()) {
            return true;
        }
        let description = chars_of(str_to_lowercase(command.description.as_str()).as_str());
        contains_chars(description.as_slice(), query.as_slice())
    }

    /// The commands that answer the query, in their order: all of them
    /// where the query is empty.
    pub fn filter_commands(&self) -> (filtered: Vec<&Command>)
        ensures
            borrowed_command_views(filtered@) == answering(self@.commands, self@.query),
    {
        let ghost wanted = |command: CommandView| answers(command, self.query@);
        let mut filtered: Vec<&Command> = Vec::new();
        let empty = self.query.as_str().is_empty();
        let query = if empty {
            Vec::new()
        } else {
            chars_of(str_to_lowercase(self.query.as_str()).as_str())
        };
        let mut i: usize = 0;
        proof {
            reveal(Seq::filter);
            assert(command_views(self.commands@).take(0).filter(wanted) =~= Seq::empty());
        }
        while i < self.commands.len()
            invariant
                i <= self.commands.len(),
                empty == (self.query@.len() == 0),
                !empty ==> query@ == lowercase_text(self.query@),
                wanted == |command: CommandView| answers(command, self.query@),
                borrowed_command_views(filtered@) == command_views(self.commands@).take(
                    i as int,
                ).filter(wanted),
            decreases self.commands.len() - i,
        {
            let ghost before = borrowed_command_views(filtered@);
            let command = &self.commands[i];
            proof {
                reveal(Seq::filter);
                assert(command_views(self.commands@).take(i + 1).drop_last() =~= command_views(
                    self.commands@,
                ).take(i as int));
                assert(command_views(self.commands@).take(i + 1).last() == command@);
            }
            if empty || Self::answers_query(command, &query) {
                filtered.push(command);
                assert(borrowed_command_views(filtered@) =~= before.push(command@));
            }
            i += 1;
        }
        assert(command_views(self.commands@).take(i as int) =~= command_views(self.commands@));
        filtered
    }

    /// The selected one of the commands that answer the query, if the
    /// selection falls among them.
    pub fn get_selected(&self) -> (selected: Option<&Command>)
        ensures
            match selected {
                Some(command) => self@.selected < answering(self@.commands, self@.query).len()
                    && command@ == answering(self@.commands, self@.query)[self@.selected as int],
                None => self@.selected >= answering(self@.commands, self@.query).len(),
            },
    {
        let filtered = self.filter_commands();
        assert(borrowed_command_views(filtered@).len() == filtered@.len());
        if self.selected < filtered.len() {
            Some(filtered[self.selected])
        } else {
            None
        }
    }
}

impl Default for CommandPalette {
    fn default() -> (palette: CommandPalette)
        ensures
            palette@ == (PaletteView {
                query: Seq::empty(),
                commands: standard_commands(),
                selected: 0,
                visible: false,
            }),
    {
        CommandPalette::new()
    }
}

/// The mathematical value of a [`FileBrowser`].
pub struct FileBrowserView {
    pub current_dir: Seq<char>,
    pub files: Seq<Seq<char>>,
    pub selected: nat,
    pub visible: bool,
}

impl FileBrowserView {
    /// The browser after a move into `dir`: the listing is empty until it
    /// is refreshed.
    pub open spec fn moved_to(self, dir: Seq<char>) -> FileBrowserView {
        FileBrowserView { current_dir: dir, files: Seq::empty(), ..self }
    }
}

/// File browser component. Paths are held as texts.
pub struct FileBrowser {
    current_dir: String,
    files: Vec<String>,
    selected: usize,
    visible: bool,
}

impl View for FileBrowser {
    type V = FileBrowserView;

    closed spec fn view(&self) -> FileBrowserView {
        FileBrowserView {
            current_dir: self.current_dir@,
            files: texts(self.files@),
            selected: self.selected as nat,
            visible: self.visible,
        }
    }
}

impl FileBrowser {
    /// A hidden browser in the directory `current_dir`, with no listing
    /// yet.
    pub fn new(current_dir: String) -> (browser: FileBrowser)
        ensures
            browser@ == (FileBrowserView {
                current_dir: current_dir@,
                files: Seq::empty(),
                selected: 0,
                visible: false,
            }),
    {
        let browser = FileBrowser { current_dir, files: Vec::new(), selected: 0, visible: false };
        assert(browser@.files =~= Seq::empty());
        browser
    }

    /// Replaces the listing by the entries that were read from the current
    /// directory.
    pub fn refresh(&mut self, entries: Vec<String>)
        ensures
            final(self)@ == (FileBrowserView { files: texts(entries@), ..old(self)@ }),
    {
        self.files = entries;
    }

    /// Moves into `dir` and empties the listing.
    pub fn navigate_to(&mut self, dir: String)
        ensures
            final(self)@ == old(self)@.moved_to(dir@),
    {
        self.current_dir = dir;
        self.files.clear();
        assert(texts(self.files@) =~= Seq::empty());
    }

    /// Moves to the parent of the current directory, if it has one, and
    /// says whether it moved. After a move the listing is empty.
    pub fn navigate_up(&mut self) -> (moved: bool)
        ensures
            !moved ==> final(self)@ == old(self)@,
            moved ==> final(self)@ == old(self)@.moved_to(final(self)@.current_dir)
                && is_strict_prefix(final(self)@.current_dir, old(self)@.current_dir),
            old(self)@.current_dir.len() == 0 ==> !moved,
            is_single_name(old(self)@.current_dir) ==> moved && final(self)@.current_dir.len()
                == 0,
    {
        let parent = path_parent(self.current_dir.as_str());
        self.navigate_to_parent(parent)
    }

    /// Moves to `parent`, the parent of the current directory as it was
    /// found, and says whether there was one to move to. After a move the
    /// listing is empty.
    pub fn navigate_to_parent(&mut self, parent: Option<String>) -> (moved: bool)
        ensures
            moved == parent is Some,
            match parent {
                Some(dir) => final(self)@ == old(self)@.moved_to(dir@),
                None => final(self)@ == old(self)@,
            },
    {
        match parent {
            Some(dir) => {
                self.navigate_to(dir);
                true
            },
            None => false,
        }
    }

    /// Moves into the selected entry if there is one and the caller found
    /// it to be a directory, and says whether it moved. After a move the
    /// listing is empty.
    pub fn navigate_into(&mut self, is_dir: bool) -> (moved: bool)
        ensures
            moved == (is_dir && old(self)@.selected < old(self)@.files.len()),
            moved ==> final(self)@ == old(self)@.moved_to(
                old(self)@.files[old(self)@.selected as int],
            ),
            !moved ==> final(self)@ == old(self)@,
    {
        if is_dir && self.selected < self.files.len() {
            let dir = self.files[self.selected].clone();
            self.navigate_to(dir);
            true
        } else {
            false
        }
    }

    /// The selected entry, if the selection falls into the listing.
    pub fn get_selected(&self) -> (selected: Option<&String>)
        ensures
            match selected {
                Some(path) => self@.selected < self@.files.len() && path@
                    == self@.files[self@.selected as int],
                None => self@.selected >= self@.files.len(),
            },
    {
        if self.selected < self.files.len() {
            Some(&self.files[self.selected])
        } else {
            None
        }
    }

    /// The directory whose entries the browser lists.
    pub fn current_dir(&self) -> (dir: &String)
        ensures
            dir@ == self@.current_dir,
    {
        &self.current_dir
    }

    /// The listing.
    pub fn files(&self) -> (files: &[String])
        ensures
            texts(files@) == self@.files,
    {
        self.files.as_slice()
    }

    /// Moves the selection.
    pub fn select(&mut self, index: usize)
        ensures
            final(self)@ == (FileBrowserView { selected: index as nat, ..old(self)@ }),
    {
        self.selected = index;
    }

    /// Whether the browser is shown.
    pub fn is_visible(&self) -> (visible: bool)
        ensures
            visible == self@.visible,
    {
        self.visible
    }
}

/// A path that is one name: not empty, and without a separator or a colon
/// in it. Such a path is relative and has one component.
pub open spec fn is_single_name(path: Seq<char>) -> bool {
    path.len() > 0 && forall|i: int|
        0 <= i < path.len() ==> path[i] != '/' && path[i] != '\\' && path[i] != ':'
}

/// `Path::parent` on a path given as text: the path without its last
/// component, which is a shorter start of the path. The empty path has no
/// parent, and the parent of a relative path of one component is the empty
/// path. Whether any other path has a parent is left to the call.
#[verifier::external_body]
fn path_parent(path: &str) -> (parent: Option<String>)
    ensures
        match parent {
            Some(dir) => is_strict_prefix(dir@, path@) && (is_single_name(path@) ==> dir@.len()
                == 0),
            None => !is_single_name(path@),
        },
{
    std::path::Path::new(path).parent().map(|p| p.to_string_lossy().into_owned())
}

/// The mathematical value of a [`GulTuiIde`].
pub struct IdeView {
    pub current_file: Option<Seq<char>>,
    pub buffer: Seq<char>,
    pub cursor: (nat, nat),
    pub file_browser: FileBrowserView,
    pub command_palette: PaletteView,
    pub status_message: Seq<char>,
    pub running: bool,
}

/// Main TUI IDE application state.
pub struct GulTuiIde {
    /// Current file being edited
    current_file: Option<String>,
    /// Editor buffer content
    buffer: String,
    /// Cursor position (line, column)
    cursor: (usize, usize),
    /// File browser state
    file_browser: FileBrowser,
    /// Command palette state
    command_palette: CommandPalette,
    /// Status bar message
    status_message: String,
    /// Whether the IDE is running
    running: bool,
}

impl View for GulTuiIde {
    type V = IdeView;

    closed spec fn view(&self) -> IdeView {
        IdeView {
            current_file: match self.current_file {
                Some(path) => Some(path@),
                None => None,
            },
            buffer: self.buffer@,
            cursor: (self.cursor.0 as nat, self.cursor.1 as nat),
            file_browser: self.file_browser@,
            command_palette: self.command_palette@,
            status_message: self.status_message@,
            running: self.running,
        }
    }
}

impl GulTuiIde {
    /// A running IDE with no file open, an empty buffer, the browser in
    /// `current_dir` and the standard palette.
    pub fn new(current_dir: String) -> (ide: GulTuiIde)
        ensures
            ide@ == (IdeView {
                current_file: None,
                buffer: Seq::empty(),
                cursor: (0, 0),
                file_browser: FileBrowserView {
                    current_dir: current_dir@,
                    files: Seq::empty(),
                    selected: 0,
                    visible: false,
                },
                command_palette: PaletteView {
                    query: Seq::empty(),
                    commands: standard_commands(),
                    selected: 0,
                    visible: false,
                },
                status_message: "Welcome to GUL TUI IDE"@,
                running: true,
            }),
    {
        GulTuiIde {
            current_file: None,
            buffer: String::new(),
            cursor: (0, 0),
            file_browser: FileBrowser::new(current_dir),
            command_palette: CommandPalette::new(),
            status_message: String::from_str("Welcome to GUL TUI IDE"),
            running: true,
        }
    }

    /// Starts the IDE: only the status line changes.
    pub fn run(&mut self) -> (result: Result<(), std::io::Error>)
        ensures
            result is Ok,
            final(self)@ == (IdeView {
                status_message: "TUI IDE initialized. Press Ctrl+P for commands."@,
                ..old(self)@
            }),
    {
        self.status_message = String::from_str("TUI IDE initialized. Press Ctrl+P for commands.");
        Ok(())
    }

    /// Takes the content that was read from the file at `path` into the
    /// buffer, with the cursor at its start.
    pub fn open_file(&mut self, path: String, content: String)
        ensures
            final(self)@ == (IdeView {
                current_file: Some(path@),
                buffer: content@,
                cursor: (0, 0),
                status_message: "Opened: Some("@ + debug_text(path@) + ")"@,
                ..old(self)@
            }),
    {
        let mut message = String::from_str("Opened: Some(");
        message.append(str_debug(path.as_str()).as_str());
        message.append(")");
        self.buffer = content;
        self.current_file = Some(path);
        self.cursor = (0, 0);
        self.status_message = message;
    }

    /// Takes note that the buffer was written to the file that is open:
    /// the status line says so, and the path of the file is returned. With
    /// no file open there was nothing to write, and nothing changes.
    pub fn save_file(&mut self) -> (target: Option<String>)
        ensures
            target matches Some(path) ==> old(self)@.current_file == Some(path@) && final(self)@
                == (IdeView {
                status_message: "Saved: "@ + debug_text(path@),
                ..old(self)@
            }),
            target is None ==> old(self)@.current_file is None && final(self)@ == old(self)@,
    {
        match &self.current_file {
            Some(path) => {
                let target = path.clone();
                let mut message = String::from_str("Saved: ");
                message.append(str_debug(target.as_str()).as_str());
                self.status_message = message;
                Some(target)
            },
            None => None,
        }
    }

    /// Announces a build: only the status line changes.
    pub fn build(&mut self) -> (result: Result<(), std::io::Error>)
        ensures
            result is Ok,
            final(self)@ == (IdeView { status_message: "Building project..."@, ..old(self)@ }),
    {
        self.status_message = String::from_str("Building project...");
        Ok(())
    }

    /// Announces a run: only the status line changes.
    pub fn run_project(&mut self) -> (result: Result<(), std::io::Error>)
        ensures
            result is Ok,
            final(self)@ == (IdeView { status_message: "Running project..."@, ..old(self)@ }),
    {
        self.status_message = String::from_str("Running project...");
        Ok(())
    }

    /// Announces formatting: only the status line changes.
    pub fn format(&mut self) -> (result: Result<(), std::io::Error>)
        ensures
            result is Ok,
            final(self)@ == (IdeView { status_message: "Formatting code..."@, ..old(self)@ }),
    {
        self.status_message = String::from_str("Formatting code...");
        Ok(())
    }

    /// Shows the command palette if it is hidden, hides it if it is shown.
    pub fn toggle_command_palette(&mut self)
        ensures
            final(self)@ == (IdeView {
                command_palette: PaletteView {
                    visible: !old(self)@.command_palette.visible,
                    ..old(self)@.command_palette
                },
                ..old(self)@
            }),
    {
        self.command_palette.visible = !self.command_palette.visible;
    }

    /// Shows the file browser if it is hidden, hides it if it is shown.
    pub fn toggle_file_browser(&mut self)
        ensures
            final(self)@ == (IdeView {
                file_browser: FileBrowserView {
                    visible: !old(self)@.file_browser.visible,
                    ..old(self)@.file_browser
                },
                ..old(self)@
            }),
    {
        self.file_browser.visible = !self.file_browser.visible;
    }

    /// Stops the IDE.
    pub fn quit(&mut self)
        ensures
            final(self)@ == (IdeView { running: false, ..old(self)@ }),
    {
        self.running = false;
    }

    /// Whether the IDE is running.
    pub fn is_running(&self) -> (running: bool)
        ensures
            running == self@.running,
    {
        self.running
    }

    /// The path of the file being edited.
    pub fn current_file(&self) -> (path: Option<&String>)
        ensures
            match path {
                Some(path) => self@.current_file == Some(path@),
                None => self@.current_file is None,
            },
    {
        self.current_file.as_ref()
    }

    /// The content of the editor buffer.
    pub fn buffer(&self) -> (buffer: &String)
        ensures
            buffer@ == self@.buffer,
    {
        &self.buffer
    }

    /// The status line.
    pub fn status_message(&self) -> (message: &String)
        ensures
            message@ == self@.status_message,
    {
        &self.status_message
    }

    /// The file browser.
    pub fn file_browser(&self) -> (browser: &FileBrowser)
        ensures
            browser@ == self@.file_browser,
    {
        &self.file_browser
    }

    /// The command palette.
    pub fn command_palette(&self) -> (palette: &CommandPalette)
        ensures
            palette@ == self@.command_palette,
    {
        &self.command_palette
    }

    /// The file browser, to work on.
    pub fn file_browser_mut(&mut self) -> (browser: &mut FileBrowser)
        ensures
            browser@ == old(self)@.file_browser,
            final(self)@ == (IdeView { file_browser: final(browser)@, ..old(self)@ }),
    {
        &mut self.file_browser
    }

    /// The command palette, to work on.
    pub fn command_palette_mut(&mut self) -> (palette: &mut CommandPalette)
        ensures
            palette@ == old(self)@.command_palette,
            final(self)@ == (IdeView { command_palette: final(palette)@, ..old(self)@ }),
    {
        &mut self.command_palette
    }
}

} // verus!
