//! Grafana dashboard embedding: URLs and the selector fragment.

use vstd::prelude::*;
use vstd::string::StringExecFns;

use crate::config::GrafanaDashboard;
use crate::strutil::str_eq;

verus! {

/// Dashboard info for UI display.
#[derive(Debug, Clone)]
pub struct DashboardInfo {
    pub uid: String,
    pub name: String,
    pub slug: String,
}

/// The embedded kiosk URL of a dashboard.
pub open spec fn spec_dashboard_url(base: Seq<char>, uid: Seq<char>, slug: Seq<char>) -> Seq<
    char,
> {
    base + "/d/"@ + uid + "/"@ + slug + "?orgId=1&kiosk"@
}

/// Generates the embedded dashboard URL.
pub fn get_dashboard_url(base_url: &str, dashboard: &GrafanaDashboard) -> (r: String)
    ensures
        r@ == spec_dashboard_url(base_url@, dashboard.uid@, dashboard.slug@),
{
    let mut r = String::from_str(base_url);
    r.append("/d/");
    r.append(dashboard.uid.as_str());
    r.append("/");
    r.append(dashboard.slug.as_str());
    r.append("?orgId=1&kiosk");
    r
}

/// One selector option: marked selected when it is the current one.
pub open spec fn spec_option_html(d: GrafanaDashboard, cur: Seq<char>) -> Seq<char> {
    "<option value=\""@ + d.uid@ + "\""@ + (if d.uid@ == cur {
        " selected"@
    } else {
        Seq::empty()
    }) + ">"@ + d.name@ + "</option>"@
}

/// The selector options, one per dashboard, joined by newlines.
pub open spec fn spec_options(ds: Seq<GrafanaDashboard>, cur: Seq<char>) -> Seq<char>
    decreases ds.len(),
{
    if ds.len() == 0 {
        Seq::empty()
    } else if ds.len() == 1 {
        spec_option_html(ds[0], cur)
    } else {
        spec_options(ds.drop_last(), cur) + "\n"@ + spec_option_html(ds.last(), cur)
    }
}

/// The whole selector fragment.
pub open spec fn spec_selector_html(ds: Seq<GrafanaDashboard>, cur: Seq<char>) -> Seq<char> {
    "<select id=\"dashboard-selector\"\n            hx-get=\"/monitoring\"\n            hx-target=\"body\"\n            hx-trigger=\"change\"\n            class=\"bg-gray-700 text-white rounded px-4 py-2 border border-gray-600\">\n            "@
        + spec_options(ds, cur) + "\n        </select>"@
}

fn option_html(d: &GrafanaDashboard, cur: &str) -> (r: String)
    ensures
        r@ == spec_option_html(*d, cur@),
{
    let mut r = String::from_str("<option value=\"");
    r.append(d.uid.as_str());
    r.append("\"");
    if str_eq(d.uid.as_str(), cur) {
        r.append(" selected");
    }
    r.append(">");
    r.append(d.name.as_str());
    r.append("</option>");
    proof {
        assert(r@ =~= spec_option_html(*d, cur@));
    }
    r
}

/// Generates the dashboard selector fragment, with the current dashboard
/// preselected.
pub fn render_dashboard_selector(dashboards: &[GrafanaDashboard], current_uid: &str) -> (r:
    String)
    ensures
        r@ == spec_selector_html(dashboards@, current_uid@),
{
    let mut options = String::new();
    let mut i: usize = 0;
    proof {
        assert(dashboards@.take(0) =~= Seq::<GrafanaDashboard>::empty());
    }
    while i < dashboards.len()
        invariant
            0 <= i <= dashboards@.len(),
            options@ == spec_options(dashboards@.take(i as int), current_uid@),
        decreases dashboards@.len() - i,
    {
        proof {
            assert(dashboards@.take(i as int + 1).drop_last() =~= dashboards@.take(i as int));
            assert(dashboards@.take(i as int + 1).last() == dashboards@[i as int]);
        }
        if i > 0 {
            options.append("\n");
        }
        let opt = option_html(&dashboards[i], current_uid);
        options.append(opt.as_str());
        proof {
            if i == 0 {
                assert(options@ =~= spec_options(dashboards@.take(1), current_uid@));
            } else {
                assert(options@ =~= spec_options(dashboards@.take(i as int + 1), current_uid@));
            }
        }
        i = i + 1;
    }
    proof {
        assert(dashboards@.take(dashboards@.len() as int) =~= dashboards@);
    }
    let mut r = String::from_str(
        "<select id=\"dashboard-selector\"\n            hx-get=\"/monitoring\"\n            hx-target=\"body\"\n            hx-trigger=\"change\"\n            class=\"bg-gray-700 text-white rounded px-4 py-2 border border-gray-600\">\n            ",
    );
    r.append(options.as_str());
    r.append("\n        </select>");
    r
}

/// The dashboards in display form, in configuration order.
pub fn get_available_dashboards(dashboards: &[GrafanaDashboard]) -> (r: Vec<DashboardInfo>)
    ensures
        r@.len() == dashboards@.len(),
        forall|i: int|
            0 <= i < r@.len() ==> {
                &&& (#[trigger] r@[i]).uid@ == dashboards@[i].uid@
                &&& r@[i].name@ == dashboards@[i].name@
                &&& r@[i].slug@ == dashboards@[i].slug@
            },
{
    let mut r: Vec<DashboardInfo> = Vec::new();
    let mut i: usize = 0;
    while i < dashboards.len()
        invariant
            0 <= i <= dashboards@.len(),
            r@.len() == i,
            forall|j: int|
                0 <= j < i ==> {
                    &&& (#[trigger] r@[j]).uid@ == dashboards@[j].uid@
                    &&& r@[j].name@ == dashboards@[j].name@
                    &&& r@[j].slug@ == dashboards@[j].slug@
                },
        decreases dashboards@.len() - i,
    {
        let d = &dashboards[i];
        r.push(
            DashboardInfo { uid: d.uid.clone(), name: d.name.clone(), slug: d.slug.clone() },
        );
        i = i + 1;
    }
    r
}

/// The index of the first dashboard with the given uid, if any.
pub open spec fn spec_dashboard_index(ds: Seq<GrafanaDashboard>, uid: Seq<char>) -> Option<int>
    decreases ds.len(),
{
    if ds.len() == 0 {
        None
    } else if ds[0].uid@ == uid {
        Some(0)
    } else {
        match spec_dashboard_index(ds.drop_first(), uid) {
            Some(i) => Some(i + 1),
            None => None,
        }
    }
}

proof fn lemma_dashboard_index(ds: Seq<GrafanaDashboard>, uid: Seq<char>)
    ensures
        match spec_dashboard_index(ds, uid) {
            Some(i) => 0 <= i < ds.len() && ds[i].uid@ == uid && (forall|j: int|
                0 <= j < i ==> ds[j].uid@ != uid),
            None => forall|j: int| 0 <= j < ds.len() ==> ds[j].uid@ != uid,
        },
    decreases ds.len(),
{
    if ds.len() > 0 && ds[0].uid@ != uid {
        let rest = ds.drop_first();
        lemma_dashboard_index(rest, uid);
        match spec_dashboard_index(rest, uid) {
            Some(i) => {
                assert(ds[i + 1] == rest[i]);
                assert forall|j: int| 0 <= j < i + 1 implies ds[j].uid@ != uid by {
                    if j >= 1 {
                        assert(ds[j] == rest[j - 1]);
                    }
                }
            },
            None => {
                assert forall|j: int| 0 <= j < ds.len() implies ds[j].uid@ != uid by {
                    if j >= 1 {
                        assert(ds[j] == rest[j - 1]);
                    }
                }
            },
        }
    }
}

/// The uid the page shows: the requested one, else the first
/// dashboard's, else nothing.
pub open spec fn spec_current_uid(ds: Seq<GrafanaDashboard>, q: Option<Seq<char>>) -> Seq<char> {
    match q {
        Some(u) => u,
        None => if ds.len() > 0 {
            ds[0].uid@
        } else {
            Seq::empty()
        },
    }
}

/// The whole monitoring page: the chosen dashboard's name and embedded
/// frame, the selector, and a link out to the Grafana base URL.
pub open spec fn spec_monitoring_page(
    ds: Seq<GrafanaDashboard>,
    base: Seq<char>,
    q: Option<Seq<char>>,
) -> Seq<char> {
    let cur = spec_current_uid(ds, q);
    let chosen = match spec_dashboard_index(ds, cur) {
        Some(i) => (ds[i].name@, spec_dashboard_url(base, ds[i].uid@, ds[i].slug@)),
        None => ("Dashboard"@, Seq::<char>::empty()),
    };
    "<!DOCTYPE html>\n<html lang=\"en\">\n<head>\n    <meta charset=\"UTF-8\">\n    <meta name=\"viewport\" content=\"width=device-width, initial-scale=1.0\">\n    <title>Control Panel - Monitoring</title>\n    <script src=\"https://unpkg.com/htmx.org@1.9.10\"></script>\n    <script src=\"https://cdn.tailwindcss.com\"></script>\n    <style>\n        body { background-color: #1a1a2e; color: #eee; }\n        .grafana-frame {\n            width: 100%;\n            height: calc(100vh - 180px);\n            border: 1px solid #374151;\n            border-radius: 8px;\n        }\n    </style>\n</head>\n<body class=\"min-h-screen\">\n    <nav class=\"bg-gray-800 border-b border-gray-700 px-6 py-4\">\n        <div class=\"flex items-center justify-between\">\n            <h1 class=\"text-2xl font-bold text-blue-400\">NixOS Control Panel</h1>\n            <div class=\"flex gap-4\">\n                <a href=\"/docker\" class=\"text-gray-400 hover:text-gray-300\">Docker</a>\n                <a href=\"/infra\" class=\"text-gray-400 hover:text-gray-300\">Infrastructure</a>\n                <a href=\"/monitoring\" class=\"text-blue-400 hover:text-blue-300\">Monitoring</a>\n                <a href=\"/editor\" class=\"text-gray-400 hover:text-gray-300\">Editor</a>\n            </div>\n        </div>\n    </nav>\n\n    <main class=\"container mx-auto px-6 py-8\">\n        <div class=\"flex justify-between items-center mb-6\">\n            <div class=\"flex items-center gap-4\">\n                <h2 class=\"text-xl font-semibold\">"@ + chosen.0 + "</h2>\n                "@ + spec_selector_html(ds, cur) + "\n            </div>\n            <div class=\"flex gap-2\">\n                <button onclick=\"document.querySelector('.grafana-frame').requestFullscreen()\"\n                        class=\"px-4 py-2 bg-gray-600 hover:bg-gray-700 rounded flex items-center gap-2\">\n                    <svg class=\"w-4 h-4\" fill=\"none\" stroke=\"currentColor\" viewBox=\"0 0 24 24\">\n                        <path stroke-linecap=\"round\" stroke-linejoin=\"round\" stroke-width=\"2\"\n                              d=\"M4 8V4m0 0h4M4 4l5 5m11-1V4m0 0h-4m4 0l-5 5M4 16v4m0 0h4m-4 0l5-5m11 5l-5-5m5 5v-4m0 4h-4\"></path>\n                    </svg>\n                    Full Screen\n                </button>\n                <a href=\""@ + base + "\" target=\"_blank\"\n                   class=\"px-4 py-2 bg-blue-600 hover:bg-blue-700 rounded flex items-center gap-2\">\n                    <svg class=\"w-4 h-4\" fill=\"none\" stroke=\"currentColor\" viewBox=\"0 0 24 24\">\n                        <path stroke-linecap=\"round\" stroke-linejoin=\"round\" stroke-width=\"2\"\n                              d=\"M10 6H6a2 2 0 00-2 2v10a2 2 0 002 2h10a2 2 0 002-2v-4M14 4h6m0 0v6m0-6L10 14\"></path>\n                    </svg>\n                    Open Grafana\n                </a>\n            </div>\n        </div>\n\n        <iframe\n            id=\"grafana-frame\"\n            class=\"grafana-frame\"\n            src=\""@
        + chosen.1 + "\"\n            frameborder=\"0\"\n            allowfullscreen>\n        </iframe>\n    </main>\n</body>\n</html>"@
}

/// Renders the monitoring page with the embedded dashboard; see
/// [`spec_monitoring_page`].
pub fn render_monitoring_page(
    dashboards: &[GrafanaDashboard],
    base_url: &str,
    current_uid: Option<&str>,
) -> (r: String)
    ensures
        r@ == spec_monitoring_page(
            dashboards@,
            base_url@,
            match current_uid {
                Some(u) => Some(u@),
                None => None,
            },
        ),
{
    let current: String = match current_uid {
        Some(u) => u.to_owned(),
        None => if dashboards.len() > 0 {
            dashboards[0].uid.clone()
        } else {
            String::new()
        },
    };
    let ghost cur = current@;
    proof {
        lemma_dashboard_index(dashboards@, cur);
    }
    let mut found: Option<usize> = None;
    let mut i: usize = 0;
    while i < dashboards.len() && found.is_none()
        invariant
            0 <= i <= dashboards@.len(),
            cur == current@,
            match found {
                Some(k) => spec_dashboard_index(dashboards@, cur) == Some(k as int) && k
                    < dashboards@.len(),
                None => forall|j: int| 0 <= j < i ==> dashboards@[j].uid@ != cur,
            },
            match spec_dashboard_index(dashboards@, cur) {
                Some(k) => 0 <= k < dashboards@.len() && dashboards@[k].uid@ == cur && (forall|
                    j: int,
                |
                    0 <= j < k ==> dashboards@[j].uid@ != cur),
                None => forall|j: int| 0 <= j < dashboards@.len() ==> dashboards@[j].uid@ != cur,
            },
        decreases dashboards@.len() - i + (if found is None {
            1int
        } else {
            0int
        }),
    {
        if str_eq(dashboards[i].uid.as_str(), current.as_str()) {
            proof {
                match spec_dashboard_index(dashboards@, cur) {
                    Some(k) => {
                        if k < i as int {
                            assert(dashboards@[k].uid@ != cur);
                        } else if k > i as int {
                            assert(dashboards@[i as int].uid@ != cur);
                        }
                    },
                    None => {
                        assert(dashboards@[i as int].uid@ != cur);
                    },
                }
                assert(spec_dashboard_index(dashboards@, cur) == Some(i as int));
            }
            found = Some(i);
        } else {
            i = i + 1;
        }
    }
    proof {
        if found is None {
            match spec_dashboard_index(dashboards@, cur) {
                Some(k) => {
                    assert(dashboards@[k].uid@ != cur);
                },
                None => {},
            }
        }
    }
    let (dashboard_name, iframe_url) = match found {
        Some(k) => (dashboards[k].name.clone(), get_dashboard_url(base_url, &dashboards[k])),
        None => (String::from_str("Dashboard"), String::new()),
    };
    let selector = render_dashboard_selector(dashboards, current.as_str());
    let mut r = String::from_str("<!DOCTYPE html>\n<html lang=\"en\">\n<head>\n    <meta charset=\"UTF-8\">\n    <meta name=\"viewport\" content=\"width=device-width, initial-scale=1.0\">\n    <title>Control Panel - Monitoring</title>\n    <script src=\"https://unpkg.com/htmx.org@1.9.10\"></script>\n    <script src=\"https://cdn.tailwindcss.com\"></script>\n    <style>\n        body { background-color: #1a1a2e; color: #eee; }\n        .grafana-frame {\n            width: 100%;\n            height: calc(100vh - 180px);\n            border: 1px solid #374151;\n            border-radius: 8px;\n        }\n    </style>\n</head>\n<body class=\"min-h-screen\">\n    <nav class=\"bg-gray-800 border-b border-gray-700 px-6 py-4\">\n        <div class=\"flex items-center justify-between\">\n            <h1 class=\"text-2xl font-bold text-blue-400\">NixOS Control Panel</h1>\n            <div class=\"flex gap-4\">\n                <a href=\"/docker\" class=\"text-gray-400 hover:text-gray-300\">Docker</a>\n                <a href=\"/infra\" class=\"text-gray-400 hover:text-gray-300\">Infrastructure</a>\n                <a href=\"/monitoring\" class=\"text-blue-400 hover:text-blue-300\">Monitoring</a>\n                <a href=\"/editor\" class=\"text-gray-400 hover:text-gray-300\">Editor</a>\n            </div>\n        </div>\n    </nav>\n\n    <main class=\"container mx-auto px-6 py-8\">\n        <div class=\"flex justify-between items-center mb-6\">\n            <div class=\"flex items-center gap-4\">\n                <h2 class=\"text-xl font-semibold\">");
    r.append(dashboard_name.as_str());
    r.append("</h2>\n                ");
    r.append(selector.as_str());
    r.append("\n            </div>\n            <div class=\"flex gap-2\">\n                <button onclick=\"document.querySelector('.grafana-frame').requestFullscreen()\"\n                        class=\"px-4 py-2 bg-gray-600 hover:bg-gray-700 rounded flex items-center gap-2\">\n                    <svg class=\"w-4 h-4\" fill=\"none\" stroke=\"currentColor\" viewBox=\"0 0 24 24\">\n                        <path stroke-linecap=\"round\" stroke-linejoin=\"round\" stroke-width=\"2\"\n                              d=\"M4 8V4m0 0h4M4 4l5 5m11-1V4m0 0h-4m4 0l-5 5M4 16v4m0 0h4m-4 0l5-5m11 5l-5-5m5 5v-4m0 4h-4\"></path>\n                    </svg>\n                    Full Screen\n                </button>\n                <a href=\"");
    r.append(base_url);
    r.append("\" target=\"_blank\"\n                   class=\"px-4 py-2 bg-blue-600 hover:bg-blue-700 rounded flex items-center gap-2\">\n                    <svg class=\"w-4 h-4\" fill=\"none\" stroke=\"currentColor\" viewBox=\"0 0 24 24\">\n                        <path stroke-linecap=\"round\" stroke-linejoin=\"round\" stroke-width=\"2\"\n                              d=\"M10 6H6a2 2 0 00-2 2v10a2 2 0 002 2h10a2 2 0 002-2v-4M14 4h6m0 0v6m0-6L10 14\"></path>\n                    </svg>\n                    Open Grafana\n                </a>\n            </div>\n        </div>\n\n        <iframe\n            id=\"grafana-frame\"\n            class=\"grafana-frame\"\n            src=\"");
    r.append(iframe_url.as_str());
    r.append("\"\n            frameborder=\"0\"\n            allowfullscreen>\n        </iframe>\n    </main>\n</body>\n</html>");
    proof {
        assert(r@ =~= spec_monitoring_page(
            dashboards@,
            base_url@,
            match current_uid {
                Some(u) => Some(u@),
                None => None,
            },
        ));
    }
    r
}

} // verus!
