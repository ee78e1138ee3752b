//! The places of the screen between which the user moves.

use vstd::prelude::*;

verus! {

/// The tab that takes the key presses.
#[derive(Copy, Clone, Eq, PartialEq, Debug, Structural)]
pub enum Tab {
    Directories,
    Files,
}

/// The part of the screen that has the focus.
#[derive(Clone, Copy, PartialEq, Eq, Debug, Structural)]
pub enum Focus {
    Middle,
    Down,
}

/// A tab of the menu line.
#[derive(Clone, Copy, PartialEq, Eq, Debug, Structural)]
pub enum MenuTab {
    Directories,
    Files,
}

impl Tab {
    /// The other tab.
    pub open spec fn other(self) -> Tab {
        match self {
            Tab::Directories => Tab::Files,
            Tab::Files => Tab::Directories,
        }
    }

    /// Gives the tab that the Tab key leads to.
    pub fn cycled(self) -> (tab: Tab)
        ensures
            tab == self.other(),
    {
        match self {
            Tab::Directories => Tab::Files,
            Tab::Files => Tab::Directories,
        }
    }

    /// The place of the tab in the menu line.
    pub fn index(self) -> (index: usize)
        ensures
            index == match self {
                Tab::Directories => 0usize,
                Tab::Files => 1usize,
            },
    {
        match self {
            Tab::Directories => 0,
            Tab::Files => 1,
        }
    }
}

impl Default for Focus {
    fn default() -> (focus: Self)
        ensures
            focus == Focus::Middle,
    {
        Focus::Middle
    }
}

impl Focus {
    /// The name of the part.
    pub fn name(self) -> (text: String)
        ensures
            text@ == match self {
                Focus::Middle => "Middle"@,
                Focus::Down => "Down"@,
            },
    {
        match self {
            Focus::Middle => String::from_str("Middle"),
            Focus::Down => String::from_str("Down"),
        }
    }

    /// The part with the number `index`, counted from 0.
    pub fn from_repr(index: usize) -> (focus: Option<Focus>)
        ensures
            focus == match index {
                0 => Some(Focus::Middle),
                1 => Some(Focus::Down),
                _ => None::<Focus>,
            },
    {
        match index {
            0 => Some(Focus::Middle),
            1 => Some(Focus::Down),
            _ => None,
        }
    }
}

impl MenuTab {
    /// The name of the tab, as the menu line shows it.
    pub fn name(self) -> (text: String)
        ensures
            text@ == match self {
                MenuTab::Directories => "Directories"@,
                MenuTab::Files => "Files"@,
            },
    {
        match self {
            MenuTab::Directories => String::from_str("Directories"),
            MenuTab::Files => String::from_str("Files"),
        }
    }

    /// The tab with the number `index`, counted from 0.
    pub fn from_repr(index: usize) -> (tab: Option<MenuTab>)
        ensures
            tab == match index {
                0 => Some(MenuTab::Directories),
                1 => Some(MenuTab::Files),
                _ => None::<MenuTab>,
            },
    {
        match index {
            0 => Some(MenuTab::Directories),
            1 => Some(MenuTab::Files),
            _ => None,
        }
    }

    /// All the tabs, in the sequence of the menu line.
    pub fn all() -> (tabs: Vec<MenuTab>)
        ensures
            tabs@ == seq![MenuTab::Directories, MenuTab::Files],
    {
        let mut tabs: Vec<MenuTab> = Vec::new();
        tabs.push(MenuTab::Directories);
        tabs.push(MenuTab::Files);
        proof {
            assert(tabs@ =~= seq![MenuTab::Directories, MenuTab::Files]);
        }
        tabs
    }

    /// The tab's title: its name with two blanks on either side.
    pub fn title(self) -> (text: String)
        ensures
            text@ == seq![' ', ' '] + match self {
                MenuTab::Directories => "Directories"@,
                MenuTab::Files => "Files"@,
            } + seq![' ', ' '],
    {
        let mut text = String::from_str("  ");
        let name = self.name();
        text.append(name.as_str());
        text.append("  ");
        proof {
            reveal_strlit("  ");
        }
        assert(text@ =~= seq![' ', ' '] + name@ + seq![' ', ' ']);
        text
    }
}

} // verus!
