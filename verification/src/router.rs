//! Routes between the views, and the template that shows the active one.

use vstd::prelude::*;
use vstd::string::StringExecFns;

verus! {

/// The name under which a view asks the router to show another route.
pub const RECEIVE_IDENT: &'static str = "navigate";

/// The template lines of one route: they show the route's component while
/// the route is the active one.
pub open spec fn route_template(route: Seq<char>) -> Seq<char> {
    "\nif active_route == \""@ + route + "\"\n    @"@ + route + " ("@ + RECEIVE_IDENT@ + "->"@
        + RECEIVE_IDENT@ + ")\n            "@
}

/// The template of some routes: the lines of each, in order.
pub open spec fn template_of(routes: Seq<Seq<char>>) -> Seq<char> {
    routes.map_values(|route: Seq<char>| route_template(route)).flatten()
}

/// Collects the routes of a router.
pub struct RouterBuilder {
    routes: Vec<String>,
    path: Option<String>,
}

/// Shows one route at a time.
pub struct Router;

impl View for RouterBuilder {
    type V = Seq<Seq<char>>;

    /// The routes added so far, in order.
    closed spec fn view(&self) -> Seq<Seq<char>> {
        self.routes@.map_values(|route: String| route@)
    }
}

impl RouterBuilder {
    /// Whether the template is to be kept in a file, and in which.
    pub closed spec fn template_path(&self) -> Option<Seq<char>> {
        match self.path {
            Some(path) => Some(path@),
            None => None,
        }
    }

    /// Adds a route after those added before.
    pub fn add_route(self, route: &str) -> (builder: RouterBuilder)
        ensures
            builder@ == self@.push(route@),
            builder.template_path() == self.template_path(),
    {
        let mut builder = self;
        let ghost before = builder@;
        let name = route.to_owned();
        builder.routes.push(name);
        builder
    }

    /// The template that shows the component of the active route.
    pub fn generate_template(&self) -> (template: String)
        ensures
            template@ == template_of(self@),
    {
        let mut template = String::new();
        let ghost parts = self@.map_values(|route: Seq<char>| route_template(route));
        let mut i: usize = 0;
        while i < self.routes.len()
            invariant
                i <= self.routes.len(),
                parts == self@.map_values(|route: Seq<char>| route_template(route)),
                template@ == parts.take(i as int).flatten(),
            decreases self.routes.len() - i,
        {
            let route = self.routes[i].as_str();
            let ghost before = template@;
            template.append("\nif active_route == \"");
            template.append(route);
            template.append("\"\n    @");
            template.append(route);
            template.append(" (");
            template.append(RECEIVE_IDENT);
            template.append("->");
            template.append(RECEIVE_IDENT);
            template.append(")\n            ");
            proof {
                assert(parts.take(i + 1) == parts.take(i as int).push(route_template(route@)));
                parts.take(i as int).lemma_flatten_push(route_template(route@));
            }
            i += 1;
        }
        proof {
            assert(parts.take(i as int) == parts);
        }
        template
    }

    /// The routes, in the order in which they were added.
    pub fn routes(&self) -> (routes: &Vec<String>)
        ensures
            routes@.map_values(|route: String| route@) == self@,
    {
        &self.routes
    }
}

impl Router {
    /// A builder without routes.
    pub fn builder() -> (builder: RouterBuilder)
        ensures
            builder@ == Seq::<Seq<char>>::empty(),
            builder.template_path() is None,
    {
        let builder = RouterBuilder { routes: Vec::new(), path: None };
        builder
    }

    /// The active route after a message to the router: the message's value
    /// where the message is a request to navigate, and else the route that
    /// was active.
    pub fn receive(ident: &str, value: String, active_route: String) -> (next: String)
        ensures
            next@ == (if ident@ == RECEIVE_IDENT@ {
                value@
            } else {
                active_route@
            }),
    {
        if ident.to_owned() == RECEIVE_IDENT.to_owned() {
            value
        } else {
            active_route
        }
    }
}

} // verus!
