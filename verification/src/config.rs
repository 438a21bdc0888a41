//! The configuration: named tasks, kept in name order, and the default task.

use vstd::prelude::*;
use crate::error::FyrError;
use crate::paths::path_exists;
use crate::keyed::{
    has_key, keys_distinct, lemma_map_of_at, lemma_map_of_empty, lemma_map_of_insert,
    lemma_map_of_remove, lemma_map_of_update, map_of,
};
use crate::text::{
    lemma_text_lt_irreflexive, lemma_text_lt_total, lemma_text_lt_transitive, text_eq, text_less,
    text_lt,
};

verus! {

/// A saved watch-and-run pair.
#[derive(Debug, PartialEq, Eq)]
pub struct Task {
    /// Files or directories to watch.
    pub watch: Vec<String>,
    /// The command to run on a change.
    pub run: Option<String>,
    /// Extensions by which to find the files to watch instead.
    pub extensions: Option<Vec<String>>,
}

/// A task as plain text values.
pub struct TaskView {
    pub watch: Seq<Seq<char>>,
    pub run: Option<Seq<char>>,
    pub extensions: Option<Seq<Seq<char>>>,
}

impl View for Task {
    type V = TaskView;

    open spec fn view(&self) -> TaskView {
        TaskView {
            watch: self.watch.deep_view(),
            run: self.run.deep_view(),
            extensions: self.extensions.deep_view(),
        }
    }
}

impl DeepView for Task {
    type V = TaskView;

    open spec fn deep_view(&self) -> TaskView {
        self.view()
    }
}

/// Each name of `s` comes before the names after it.
pub open spec fn names_ascending(s: Seq<(Seq<char>, TaskView)>) -> bool {
    forall|i: int, j: int| 0 <= i < j < s.len() ==> text_lt(#[trigger] s[i].0, #[trigger] s[j].0)
}

/// Names in ascending order occur once each.
pub proof fn lemma_ascending_distinct(s: Seq<(Seq<char>, TaskView)>)
    requires
        names_ascending(s),
    ensures
        keys_distinct(s),
{
    assert forall|i: int, j: int| 0 <= i < s.len() && 0 <= j < s.len() && i != j implies s[i].0
        != s[j].0 by {
        if i < j {
            assert(text_lt(s[i].0, s[j].0));
        } else {
            assert(text_lt(s[j].0, s[i].0));
        }
        lemma_text_lt_irreflexive(s[i].0);
    }
}

/// Tasks by name, each name once, in ascending name order.
pub struct TaskMap {
    entries: Vec<(String, Task)>,
}

impl TaskMap {
    /// The (name, task) pairs in the order in which they are kept.
    pub closed spec fn entry_views(&self) -> Seq<(Seq<char>, TaskView)> {
        self.entries.deep_view()
    }

    #[verifier::type_invariant]
    spec fn well_formed(self) -> bool {
        names_ascending(self.entries.deep_view())
    }
}

impl View for TaskMap {
    type V = Map<Seq<char>, TaskView>;

    open spec fn view(&self) -> Map<Seq<char>, TaskView> {
        map_of(self.entry_views())
    }
}

impl TaskMap {
    /// A map with no task.
    pub fn new() -> (m: Self)
        ensures
            m@ == Map::<Seq<char>, TaskView>::empty(),
            m.entry_views().len() == 0,
    {
        let m = TaskMap { entries: Vec::new() };
        proof {
            lemma_map_of_empty(m.entry_views());
        }
        m
    }

    /// Where `name` stands: `Ok` with its index, or `Err` with the index at
    /// which it would be put to keep the names ascending.
    fn position(&self, name: &str) -> (r: Result<usize, usize>)
        ensures
            match r {
                Ok(i) => i < self.entry_views().len() && self.entry_views()[i as int].0 == name@,
                Err(p) => {
                    &&& p <= self.entry_views().len()
                    &&& !has_key(self.entry_views(), name@)
                    &&& forall|j: int|
                        0 <= j < p ==> text_lt(#[trigger] self.entry_views()[j].0, name@)
                    &&& forall|j: int|
                        p <= j < self.entry_views().len() ==> text_lt(
                            name@,
                            #[trigger] self.entry_views()[j].0,
                        )
                },
            },
    {
        proof {
            use_type_invariant(self);
        }
        let ghost s = self.entry_views();
        let n = self.entries.len();
        let mut i: usize = 0;
        while i < n
            invariant
                n == s.len(),
                s == self.entry_views(),
                names_ascending(s),
                i <= n,
                forall|j: int| 0 <= j < i ==> text_lt(#[trigger] s[j].0, name@),
            decreases n - i,
        {
            let key = self.entries[i].0.as_str();
            assert(key@ == s[i as int].0);
            if text_eq(key, name) {
                return Ok(i);
            }
            if text_less(name, key) {
                proof {
                    assert forall|j: int| i <= j < n implies text_lt(name@, #[trigger] s[j].0) by {
                        if j > i {
                            assert(text_lt(s[i as int].0, s[j].0));
                            lemma_text_lt_transitive(name@, s[i as int].0, s[j].0);
                        }
                    }
                    assert forall|j: int| 0 <= j < n implies #[trigger] s[j].0 != name@ by {
                        lemma_text_lt_irreflexive(name@);
                    }
                }
                return Err(i);
            }
            proof {
                lemma_text_lt_total(key@, name@);
            }
            i = i + 1;
        }
        proof {
            assert forall|j: int| 0 <= j < n implies #[trigger] s[j].0 != name@ by {
                lemma_text_lt_irreflexive(name@);
            }
        }
        Err(n)
    }

    /// Whether a task has this name.
    pub fn contains_key(&self, name: &str) -> (r: bool)
        ensures
            r == self@.contains_key(name@),
    {
        match self.position(name) {
            Ok(_) => true,
            Err(_) => false,
        }
    }

    /// The task of this name, if there is one.
    pub fn get(&self, name: &str) -> (r: Option<&Task>)
        ensures
            match r {
                Some(t) => self@.contains_key(name@) && t@ == self@[name@],
                None => !self@.contains_key(name@),
            },
    {
        proof {
            use_type_invariant(self);
            lemma_ascending_distinct(self.entry_views());
        }
        match self.position(name) {
            Ok(i) => {
                proof {
                    lemma_map_of_at(self.entry_views(), i as int);
                }
                Some(&self.entries[i].1)
            },
            Err(_) => None,
        }
    }

    /// Whether there is no task at all.
    pub fn is_empty(&self) -> (r: bool)
        ensures
            r == (self@ == Map::<Seq<char>, TaskView>::empty()),
            r == (self.entry_views().len() == 0),
    {
        proof {
            use_type_invariant(self);
            lemma_ascending_distinct(self.entry_views());
            if self.entry_views().len() == 0 {
                lemma_map_of_empty(self.entry_views());
            } else {
                lemma_map_of_at(self.entry_views(), 0);
                assert(!Map::<Seq<char>, TaskView>::empty().contains_key(self.entry_views()[0].0));
            }
        }
        self.entries.len() == 0
    }

    /// The (name, task) pairs, names ascending.
    pub fn entries(&self) -> (r: &Vec<(String, Task)>)
        ensures
            r.deep_view() == self.entry_views(),
            names_ascending(r.deep_view()),
            keys_distinct(r.deep_view()),
    {
        proof {
            use_type_invariant(self);
            lemma_ascending_distinct(self.entry_views());
        }
        &self.entries
    }

    /// The names of the tasks, ascending.
    pub fn names(&self) -> (r: Vec<String>)
        ensures
            r.deep_view() == self.entry_views().map_values(|e: (Seq<char>, TaskView)| e.0),
    {
        let ghost s = self.entry_views();
        let mut r: Vec<String> = Vec::new();
        let n = self.entries.len();
        let mut i: usize = 0;
        while i < n
            invariant
                n == s.len(),
                s == self.entry_views(),
                i <= n,
                r@.len() == i,
                r.deep_view() == s.map_values(|e: (Seq<char>, TaskView)| e.0).take(i as int),
            decreases n - i,
        {
            r.push(self.entries[i].0.clone());
            assert(r@[i as int]@ == s[i as int].0);
            assert(r.deep_view() =~= s.map_values(|e: (Seq<char>, TaskView)| e.0).take(i + 1));
            i = i + 1;
        }
        assert(s.map_values(|e: (Seq<char>, TaskView)| e.0).take(n as int) =~= s.map_values(
            |e: (Seq<char>, TaskView)| e.0,
        ));
        r
    }

    /// Saves `task` under `name`, in place of any task of that name.
    pub fn insert(&mut self, name: String, task: Task)
        ensures
            final(self)@ == old(self)@.insert(name@, task@),
    {
        proof {
            use_type_invariant(&*self);
            lemma_ascending_distinct(self.entry_views());
        }
        let ghost s = self.entry_views();
        let ghost e = (name@, task@);
        let pos = self.position(name.as_str());
        let mut entries: Vec<(String, Task)> = Vec::new();
        std::mem::swap(&mut entries, &mut self.entries);
        assert(entries.deep_view() == s);
        match pos {
            Ok(i) => {
                entries.set(i, (name, task));
                proof {
                    assert(entries.deep_view() =~= s.update(i as int, (s[i as int].0, task@)));
                    lemma_map_of_update(s, i as int, task@);
                    assert(names_ascending(entries.deep_view()));
                }
            },
            Err(p) => {
                entries.insert(p, (name, task));
                proof {
                    let t = s.insert(p as int, e);
                    assert(entries.deep_view() =~= t);
                    lemma_map_of_insert(s, p as int, e.0, e.1);
                    assert forall|i: int, j: int| 0 <= i < j < t.len() implies text_lt(
                        #[trigger] t[i].0,
                        #[trigger] t[j].0,
                    ) by {
                        if j < p {
                            assert(t[i] == s[i] && t[j] == s[j]);
                        } else if j == p {
                            assert(t[i] == s[i]);
                        } else if i == p {
                            assert(t[j] == s[j - 1]);
                        } else if i < p {
                            assert(t[i] == s[i] && t[j] == s[j - 1]);
                        } else {
                            assert(t[i] == s[i - 1] && t[j] == s[j - 1]);
                        }
                    }
                }
            },
        }
        self.entries = entries;
    }

    /// Takes out the task of this name and hands it back, if there is one.
    pub fn remove(&mut self, name: &str) -> (r: Option<Task>)
        ensures
            match r {
                Some(t) => {
                    &&& old(self)@.contains_key(name@)
                    &&& t@ == old(self)@[name@]
                    &&& final(self)@ == old(self)@.remove(name@)
                },
                None => !old(self)@.contains_key(name@) && final(self)@ == old(self)@,
            },
    {
        proof {
            use_type_invariant(&*self);
            lemma_ascending_distinct(self.entry_views());
        }
        let ghost s = self.entry_views();
        match self.position(name) {
            Err(_) => None,
            Ok(i) => {
                let mut entries: Vec<(String, Task)> = Vec::new();
                std::mem::swap(&mut entries, &mut self.entries);
                assert(entries.deep_view() == s);
                let (_, task) = entries.remove(i);
                proof {
                    let t = s.remove(i as int);
                    assert(entries.deep_view() =~= t);
                    lemma_map_of_remove(s, i as int);
                    lemma_map_of_at(s, i as int);
                    assert forall|a: int, b: int| 0 <= a < b < t.len() implies text_lt(
                        #[trigger] t[a].0,
                        #[trigger] t[b].0,
                    ) by {
                        let sa = if a < i { a } else { a + 1 };
                        let sb = if b < i { b } else { b + 1 };
                        assert(t[a] == s[sa] && t[b] == s[sb]);
                    }
                }
                self.entries = entries;
                Some(task)
            },
        }
    }
}

/// A configuration as plain values.
#[verifier::ext_equal]
pub struct ConfigView {
    pub default: Option<Seq<char>>,
    pub tasks: Map<Seq<char>, TaskView>,
}

/// The saved tasks, and the task to run when none is named.
pub struct FyrConfig {
    /// The task to run when none is named.
    pub default: Option<String>,
    /// The saved tasks by name.
    pub tasks: TaskMap,
}

impl View for FyrConfig {
    type V = ConfigView;

    open spec fn view(&self) -> ConfigView {
        ConfigView { default: self.default.deep_view(), tasks: self.tasks@ }
    }
}

/// `c` with `task` saved under `name`, in place of any task of that name.
pub open spec fn with_task_added(c: ConfigView, name: Seq<char>, task: TaskView) -> ConfigView {
    ConfigView { default: c.default, tasks: c.tasks.insert(name, task) }
}

/// `c` without the task `name`, or `None` where there is no such task.
pub open spec fn with_task_removed(c: ConfigView, name: Seq<char>) -> Option<ConfigView> {
    if c.tasks.contains_key(name) {
        Some(ConfigView { default: c.default, tasks: c.tasks.remove(name) })
    } else {
        None
    }
}

/// `t` with the fields that are given replaced: the watch list where it is
/// not empty, the run command and the extensions where they are `Some`.
pub open spec fn edited_task(
    t: TaskView,
    watch: Seq<Seq<char>>,
    run: Option<Seq<char>>,
    extensions: Option<Seq<Seq<char>>>,
) -> TaskView {
    TaskView {
        watch: if watch.len() > 0 { watch } else { t.watch },
        run: if run is Some { run } else { t.run },
        extensions: if extensions is Some { extensions } else { t.extensions },
    }
}

/// `c` with the task `name` edited, or `None` where there is no such task.
pub open spec fn with_task_edited(
    c: ConfigView,
    name: Seq<char>,
    watch: Seq<Seq<char>>,
    run: Option<Seq<char>>,
    extensions: Option<Seq<Seq<char>>>,
) -> Option<ConfigView> {
    if c.tasks.contains_key(name) {
        Some(
            ConfigView {
                default: c.default,
                tasks: c.tasks.insert(name, edited_task(c.tasks[name], watch, run, extensions)),
            },
        )
    } else {
        None
    }
}

/// `c` with the task `name` saved under `new_name` instead (in place of any
/// task of that name), or `None` where there is no task `name`.
pub open spec fn with_task_renamed(c: ConfigView, name: Seq<char>, new_name: Seq<char>) -> Option<
    ConfigView,
> {
    if c.tasks.contains_key(name) {
        Some(
            ConfigView {
                default: c.default,
                tasks: c.tasks.remove(name).insert(new_name, c.tasks[name]),
            },
        )
    } else {
        None
    }
}

/// `c` with `name` as its default task, or `None` where there is no such task.
pub open spec fn with_default(c: ConfigView, name: Seq<char>) -> Option<ConfigView> {
    if c.tasks.contains_key(name) {
        Some(ConfigView { default: Some(name), tasks: c.tasks })
    } else {
        None
    }
}

/// `r` and the configuration after the call are what `outcome` says: the new
/// configuration where there is one, else the error that no task has this
/// name and the configuration as it was.
pub open spec fn settled(
    outcome: Option<ConfigView>,
    before: ConfigView,
    after: ConfigView,
    name: String,
    r: Result<(), FyrError>,
) -> bool {
    match outcome {
        Some(c) => r is Ok && after == c,
        None => r == Err::<(), FyrError>(FyrError::TaskNotFound(name)) && after == before,
    }
}

impl FyrConfig {
    /// A configuration with no task and no default.
    pub fn new() -> (c: Self)
        ensures
            c@.default is None,
            c@.tasks == Map::<Seq<char>, TaskView>::empty(),
    {
        FyrConfig { default: None, tasks: TaskMap::new() }
    }

    /// Saves a task, in place of any task of the same name.
    pub fn add_task(
        &mut self,
        name: String,
        watch: Vec<String>,
        run: String,
        extensions: Option<Vec<String>>,
    )
        ensures
            final(self)@ == with_task_added(
                old(self)@,
                name@,
                TaskView {
                    watch: watch.deep_view(),
                    run: Some(run@),
                    extensions: extensions.deep_view(),
                },
            ),
    {
        let task = Task { watch, run: Some(run), extensions };
        self.tasks.insert(name, task);
    }

    /// Deletes a task.
    pub fn remove_task(&mut self, name: String) -> (r: Result<(), FyrError>)
        ensures
            settled(with_task_removed(old(self)@, name@), old(self)@, final(self)@, name, r),
    {
        match self.tasks.remove(name.as_str()) {
            Some(_) => Ok(()),
            None => Err(FyrError::TaskNotFound(name)),
        }
    }

    /// Changes the fields of a task that are given and keeps the others.
    pub fn edit_task(
        &mut self,
        name: String,
        watch: Vec<String>,
        run: Option<String>,
        extensions: Option<Vec<String>>,
    ) -> (r: Result<(), FyrError>)
        ensures
            settled(
                with_task_edited(
                    old(self)@,
                    name@,
                    watch.deep_view(),
                    run.deep_view(),
                    extensions.deep_view(),
                ),
                old(self)@,
                final(self)@,
                name,
                r,
            ),
    {
        match self.tasks.remove(name.as_str()) {
            None => Err(FyrError::TaskNotFound(name)),
            Some(mut task) => {
                if run.is_some() {
                    task.run = run;
                }
                if extensions.is_some() {
                    task.extensions = extensions;
                }
                if watch.len() > 0 {
                    task.watch = watch;
                }
                self.tasks.insert(name, task);
                proof {
                    assert(final(self)@.tasks =~= old(self)@.tasks.insert(
                        name@,
                        edited_task(
                            old(self)@.tasks[name@],
                            watch.deep_view(),
                            run.deep_view(),
                            extensions.deep_view(),
                        ),
                    ));
                }
                Ok(())
            },
        }
    }

    /// Saves the task `name` under `new_name` instead.
    pub fn rename_task(&mut self, name: String, new_name: String) -> (r: Result<(), FyrError>)
        ensures
            settled(with_task_renamed(old(self)@, name@, new_name@), old(self)@, final(self)@, name, r),
    {
        match self.tasks.remove(name.as_str()) {
            None => Err(FyrError::TaskNotFound(name)),
            Some(task) => {
                self.tasks.insert(new_name, task);
                Ok(())
            },
        }
    }

    /// Makes an existing task the default one.
    pub fn set_default(&mut self, name: String) -> (r: Result<(), FyrError>)
        ensures
            settled(with_default(old(self)@, name@), old(self)@, final(self)@, name, r),
    {
        if self.tasks.contains_key(name.as_str()) {
            self.default = Some(name);
            Ok(())
        } else {
            Err(FyrError::TaskNotFound(name))
        }
    }
}

/// A task added under a name that was free, then removed, leaves the
/// configuration as it was.
pub proof fn law_remove_undoes_add(c: ConfigView, name: Seq<char>, task: TaskView)
    requires
        !c.tasks.contains_key(name),
    ensures
        with_task_removed(with_task_added(c, name, task), name) == Some(c),
{
    assert(c.tasks.insert(name, task).remove(name) =~= c.tasks);
}

/// Adding saves the task under its name, and the later of two adds under one
/// name is the one that stays.
pub proof fn law_add_replaces(c: ConfigView, name: Seq<char>, first: TaskView, second: TaskView)
    ensures
        with_task_added(c, name, first).tasks[name] == first,
        with_task_added(with_task_added(c, name, first), name, second) == with_task_added(
            c,
            name,
            second,
        ),
{
    assert(c.tasks.insert(name, first).insert(name, second) =~= c.tasks.insert(name, second));
}

/// Renaming keeps all of the task's data under the new name; the old name
/// goes; every other task, and the default, stay as they were.
pub proof fn law_rename_preserves_task(c: ConfigView, name: Seq<char>, new_name: Seq<char>)
    requires
        c.tasks.contains_key(name),
    ensures
        with_task_renamed(c, name, new_name) matches Some(r) && {
            &&& r.tasks.contains_key(new_name)
            &&& r.tasks[new_name] == c.tasks[name]
            &&& name != new_name ==> !r.tasks.contains_key(name)
            &&& r.default == c.default
            &&& forall|k: Seq<char>|
                k != name && k != new_name ==> (#[trigger] r.tasks.contains_key(k)
                    == c.tasks.contains_key(k) && (c.tasks.contains_key(k) ==> r.tasks[k]
                    == c.tasks[k]))
        },
{
}

/// Renaming to a free name and back leaves the configuration as it was.
pub proof fn law_rename_round_trip(c: ConfigView, name: Seq<char>, new_name: Seq<char>)
    requires
        c.tasks.contains_key(name),
        !c.tasks.contains_key(new_name),
    ensures
        with_task_renamed(c, name, new_name) matches Some(r) && with_task_renamed(r, new_name, name)
            == Some(c),
{
    let r = with_task_renamed(c, name, new_name)->0;
    assert(r.tasks.remove(new_name).insert(name, r.tasks[new_name]) =~= c.tasks);
}

/// An edit that gives no field leaves the configuration as it was.
pub proof fn law_empty_edit_changes_nothing(c: ConfigView, name: Seq<char>)
    requires
        c.tasks.contains_key(name),
    ensures
        with_task_edited(c, name, Seq::empty(), None, None) == Some(c),
{
    assert(edited_task(c.tasks[name], Seq::empty(), None, None) == c.tasks[name]);
    assert(c.tasks.insert(name, c.tasks[name]) =~= c.tasks);
}

/// The same edit made twice changes no more than made once.
pub proof fn law_edit_idempotent(
    c: ConfigView,
    name: Seq<char>,
    watch: Seq<Seq<char>>,
    run: Option<Seq<char>>,
    extensions: Option<Seq<Seq<char>>>,
)
    requires
        c.tasks.contains_key(name),
    ensures
        with_task_edited(c, name, watch, run, extensions) matches Some(once) && with_task_edited(
            once,
            name,
            watch,
            run,
            extensions,
        ) == Some(once),
{
    let once = with_task_edited(c, name, watch, run, extensions)->0;
    let t = once.tasks[name];
    assert(edited_task(t, watch, run, extensions) == t);
    assert(once.tasks.insert(name, t) =~= once.tasks);
}

/// An edit changes only the fields that are given: each given field (a
/// non-empty watch list, a run command, extensions) replaces the task's own,
/// and each field not given keeps its old value, whatever else is given; the
/// other tasks and the default stay as they were.
pub proof fn law_edit_changes_only_given_fields(
    c: ConfigView,
    name: Seq<char>,
    watch: Seq<Seq<char>>,
    run: Option<Seq<char>>,
    extensions: Option<Seq<Seq<char>>>,
)
    requires
        c.tasks.contains_key(name),
    ensures
        with_task_edited(c, name, watch, run, extensions) matches Some(d) && {
            let old_task = c.tasks[name];
            let new_task = d.tasks[name];
            &&& d.tasks.contains_key(name)
            &&& watch.len() > 0 ==> new_task.watch == watch
            &&& watch.len() == 0 ==> new_task.watch == old_task.watch
            &&& run is Some ==> new_task.run == run
            &&& run is None ==> new_task.run == old_task.run
            &&& extensions is Some ==> new_task.extensions == extensions
            &&& extensions is None ==> new_task.extensions == old_task.extensions
            &&& d.default == c.default
            &&& forall|k: Seq<char>|
                k != name ==> (#[trigger] d.tasks.contains_key(k) == c.tasks.contains_key(k) && (
                c.tasks.contains_key(k) ==> d.tasks[k] == c.tasks[k]))
        },
{
}

/// Where the tasks come from: with the global flag always the global tasks;
/// without it the project file exactly when it exists.
pub proof fn law_config_source(global: bool, local_exists: bool)
    ensures
        global ==> source_for(global, local_exists) == ConfigSource::Global,
        !global ==> (source_for(global, local_exists) == ConfigSource::Local <==> local_exists),
{
}

/// The project file, looked for in the current directory.
pub const PROJECT_FILE: &'static str = "fyr.toml";

/// Where the tasks are read from.
#[derive(Debug, PartialEq, Eq, Clone, Copy)]
pub enum ConfigSource {
    /// The tasks saved for the user, in the platform's configuration directory.
    Global,
    /// The project file in the current directory.
    Local,
}

/// Where the tasks are read from: the global tasks when they are asked for,
/// else the project file where there is one, else the global tasks.
pub open spec fn source_for(global: bool, local_exists: bool) -> ConfigSource {
    if global {
        ConfigSource::Global
    } else if local_exists {
        ConfigSource::Local
    } else {
        ConfigSource::Global
    }
}

/// Where the tasks are read from, once it is known whether the project file exists.
pub fn config_source(global: bool, local_exists: bool) -> (r: ConfigSource)
    ensures
        r == source_for(global, local_exists),
{
    if global {
        ConfigSource::Global
    } else if local_exists {
        ConfigSource::Local
    } else {
        ConfigSource::Global
    }
}

/// Where the tasks are read from: looks for the project file unless the global
/// tasks are asked for.
pub fn resolve_config(global: bool) -> (r: ConfigSource)
    ensures
        global ==> r == ConfigSource::Global,
        r == ConfigSource::Local ==> !global,
{
    if global {
        ConfigSource::Global
    } else {
        let local_exists = path_exists(PROJECT_FILE);
        config_source(false, local_exists)
    }
}

} // verus!
