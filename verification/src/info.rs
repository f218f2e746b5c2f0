//! Info pages and their unlocking.

use vstd::prelude::*;
use crate::context::TextContext;
use crate::error::{InfoApplicationError, InvalidInfoPage, ResolutionError};
use crate::table::StringMap;
use crate::templating::{templatable, TemplatableString};

verus! {

/// What an info application names: the page, and the title under which it
/// is listed.
#[derive(Debug)]
pub struct InfoContents {
    pub name: TemplatableString,
    pub as_name: Option<TemplatableString>,
}

/// The unlocking of one info page by a choice.
#[derive(Debug)]
pub struct InfoApplication {
    pub info: InfoContents,
}

/// Info applications, unlocked in order.
pub type InfoApplications = Vec<InfoApplication>;

/// The loaded info pages: name to body.
pub type InfoPages = StringMap<String>;

/// An info page that the player has unlocked.
#[derive(Debug)]
pub struct UnlockedInfoPage {
    pub name: String,
    pub as_name: String,
}

/// The unlocked info pages in the order of unlocking.
pub type UnlockedInfoPages = Vec<UnlockedInfoPage>;

/// An unlocked info page as plain values.
pub struct UnlockedPage {
    pub name: Seq<char>,
    pub as_name: Seq<char>,
}

impl View for UnlockedInfoPage {
    type V = UnlockedPage;

    open spec fn view(&self) -> UnlockedPage {
        UnlockedPage { name: self.name@, as_name: self.as_name@ }
    }
}

impl UnlockedInfoPage {
    /// A copy of this page.
    pub fn duplicate(&self) -> (page: UnlockedInfoPage)
        ensures
            page == *self,
    {
        UnlockedInfoPage { name: self.name.clone(), as_name: self.as_name.clone() }
    }
}

/// The unlocked pages as plain values.
pub open spec fn pages_view(pages: Seq<UnlockedInfoPage>) -> Seq<UnlockedPage> {
    pages.map_values(|p: UnlockedInfoPage| p@)
}

/// Whether a page named `name` is among `pages`.
pub open spec fn has_page(pages: Seq<UnlockedPage>, name: Seq<char>) -> bool {
    exists|i: int| 0 <= i < pages.len() && (#[trigger] pages[i]).name == name
}

/// The unlocked pages after `new` are unlocked in order. Unlocking a page
/// whose name is unlocked already changes nothing.
pub open spec fn unlocked_after(pages: Seq<UnlockedPage>, new: Seq<UnlockedPage>) -> Seq<UnlockedPage>
    decreases new.len(),
{
    if new.len() == 0 {
        pages
    } else {
        let before = unlocked_after(pages, new.drop_last());
        if has_page(before, new.last().name) {
            before
        } else {
            before.push(new.last())
        }
    }
}

/// The pages that the info applications `apps` unlock, where resolving
/// them calls no script.
pub open spec fn unlocks(apps: Seq<InfoApplication>, ctx: &TextContext) -> Seq<UnlockedPage> {
    apps.map_values(|app: InfoApplication| app.unlocked(ctx))
}

/// Whether `pages` are pages that the info applications `apps` can
/// unlock: one for each, in order.
pub open spec fn unlock_as(apps: Seq<InfoApplication>, ctx: &TextContext, pages: Seq<UnlockedPage>) -> bool {
    &&& pages.len() == apps.len()
    &&& forall|i: int| 0 <= i < apps.len() ==> (#[trigger] apps[i]).unlocks_as(ctx, pages[i])
}

/// The first of `apps`, from `from` on, that names a page missing from
/// `pages`.
pub open spec fn first_invalid_page(
    apps: Seq<InfoApplication>,
    pages: Map<Seq<char>, String>,
    from: int,
) -> Option<InfoApplicationError>
    decreases apps.len() - from,
{
    if from < 0 || from >= apps.len() {
        None
    } else if !apps[from].valid(pages) {
        Some(InfoApplicationError { index: (from + 1) as usize })
    } else {
        first_invalid_page(apps, pages, from + 1)
    }
}

impl InfoApplication {
    /// Whether unlocking the page calls no script.
    pub open spec fn script_free(&self, ctx: &TextContext) -> bool {
        &&& self.info.name.script_free(ctx)
        &&& match self.info.as_name {
            Some(a) => a.script_free(ctx),
            None => true,
        }
    }

    /// The page that is unlocked, where resolving it calls no script. A
    /// page without a title of its own is listed under its name.
    pub open spec fn unlocked(&self, ctx: &TextContext) -> UnlockedPage {
        UnlockedPage {
            name: self.info.name.plain(ctx),
            as_name: match self.info.as_name {
                Some(a) => a.plain(ctx),
                None => self.info.name.plain(ctx),
            },
        }
    }

    /// Whether `page` is a page that unlocking can give: its name is one
    /// that the name fills to, and its title one that the title fills to,
    /// or the name itself where no title is given.
    pub open spec fn unlocks_as(&self, ctx: &TextContext, page: UnlockedPage) -> bool {
        &&& self.info.name.fills_to(ctx, page.name)
        &&& match self.info.as_name {
            Some(a) => a.fills_to(ctx, page.as_name),
            None => page.as_name == page.name,
        }
    }

    /// Whether `e` is a failure that unlocking can end in: a failure of
    /// filling the name or the title.
    pub open spec fn fails_as(&self, ctx: &TextContext, e: ResolutionError) -> bool {
        ||| self.info.name.fails_as(ctx, e)
        ||| self.info.as_name is Some && self.info.as_name->0.fails_as(ctx, e)
    }

    /// Whether the page is loaded, as far as its name is known without
    /// resolving anything.
    pub open spec fn valid(&self, pages: Map<Seq<char>, String>) -> bool {
        templatable(self.info.name.content@) || pages.contains_key(self.info.name.content@)
    }

    /// Resolves the page to unlock: its name, and the title under which it
    /// is listed, which is the name where no title is given.
    pub fn to_unlocked(&self, text_context: &TextContext) -> (r: Result<
        UnlockedInfoPage,
        ResolutionError,
    >)
        ensures
            self.script_free(text_context) ==> (r matches Ok(page) && page@ == self.unlocked(
                text_context,
            )),
            r matches Ok(page) ==> self.unlocks_as(text_context, page@),
            r matches Err(e) ==> self.fails_as(text_context, e),
    {
        let name = match self.info.name.fill(text_context) {
            Ok(n) => n,
            Err(e) => {
                return Err(e);
            },
        };
        let as_name = match &self.info.as_name {
            Some(a) => match a.fill(text_context) {
                Ok(t) => t,
                Err(e) => {
                    return Err(e);
                },
            },
            None => name.clone(),
        };
        Ok(UnlockedInfoPage { name, as_name })
    }

    /// Checks that the page is loaded, where its name is known without
    /// resolving anything.
    pub fn validate(&self, pages: &InfoPages) -> (r: Result<(), InvalidInfoPage>)
        ensures
            r is Ok == self.valid(pages@),
    {
        if let Some(page) = self.info.name.content() {
            if !pages.contains_key(page) {
                return Err(InvalidInfoPage);
            }
        }
        Ok(())
    }

    /// Checks `apps` in order and reports the first that names a page
    /// which is not loaded.
    pub fn validate_all(apps: &InfoApplications, pages: &InfoPages) -> (r: Result<
        (),
        InfoApplicationError,
    >)
        ensures
            match r {
                Ok(_) => first_invalid_page(apps@, pages@, 0) is None,
                Err(e) => first_invalid_page(apps@, pages@, 0) == Some(e),
            },
    {
        let mut i: usize = 0;
        while i < apps.len()
            invariant
                i <= apps.len(),
                first_invalid_page(apps@, pages@, 0) == first_invalid_page(apps@, pages@, i as int),
            decreases apps.len() - i,
        {
            if apps[i].validate(pages).is_err() {
                return Err(InfoApplicationError { index: i + 1 });
            }
            i = i + 1;
        }
        Ok(())
    }
}

} // verus!
