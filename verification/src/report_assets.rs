//! The style sheet and script that accompany an HTML report.
use vstd::prelude::*;
use crate::text::owned;
use crate::report::HtmlReporter;

verus! {

/// The report's style sheet.
pub const REPORT_CSS: &'static str = r#":root {
    --primary-color: #2563eb;
    --secondary-color: #10b981;
    --danger-color: #ef4444;
    --warning-color: #f59e0b;
    --info-color: #3b82f6;
    --background: #ffffff;
    --surface: #f9fafb;
    --text-primary: #1f2937;
    --text-secondary: #6b7280;
    --border-color: #e5e7eb;
    --shadow: 0 1px 3px 0 rgba(0, 0, 0, 0.1);
}

body.dark-mode {
    --background: #0f172a;
    --surface: #1e293b;
    --text-primary: #f1f5f9;
    --text-secondary: #94a3b8;
    --border-color: #334155;
    --shadow: 0 1px 3px 0 rgba(0, 0, 0, 0.5);
}

* {
    margin: 0;
    padding: 0;
    box-sizing: border-box;
}

body {
    font-family: -apple-system, BlinkMacSystemFont, 'Segoe UI', Roboto, 'Helvetica Neue', Arial, sans-serif;
    background-color: var(--background);
    color: var(--text-primary);
    line-height: 1.6;
    transition: background-color 0.3s, color 0.3s;
}

.container {
    max-width: 1200px;
    margin: 0 auto;
    padding: 2rem;
}

header {
    background: var(--surface);
    padding: 2rem;
    border-radius: 8px;
    margin-bottom: 2rem;
    box-shadow: var(--shadow);
}

header h1 {
    font-size: 2.5rem;
    margin-bottom: 1rem;
    color: var(--primary-color);
}

.meta-info {
    display: flex;
    gap: 2rem;
    align-items: center;
    color: var(--text-secondary);
}

.theme-toggle {
    margin-left: auto;
    background: none;
    border: 1px solid var(--border-color);
    padding: 0.5rem 1rem;
    border-radius: 4px;
    cursor: pointer;
    font-size: 1.2rem;
    transition: all 0.3s;
}

.theme-toggle:hover {
    background: var(--primary-color);
    color: white;
    border-color: var(--primary-color);
}

.navigation {
    background: var(--surface);
    padding: 1rem;
    border-radius: 8px;
    margin-bottom: 2rem;
    box-shadow: var(--shadow);
}

.navigation ul {
    list-style: none;
    display: flex;
    gap: 2rem;
    justify-content: center;
    flex-wrap: wrap;
}

.navigation a {
    color: var(--text-primary);
    text-decoration: none;
    padding: 0.5rem 1rem;
    border-radius: 4px;
    transition: background 0.3s;
}

.navigation a:hover {
    background: var(--primary-color);
    color: white;
}

.card {
    background: var(--surface);
    padding: 2rem;
    border-radius: 8px;
    margin-bottom: 2rem;
    box-shadow: var(--shadow);
}

.card h2 {
    font-size: 1.8rem;
    margin-bottom: 1.5rem;
    color: var(--primary-color);
}

.alert {
    padding: 1rem 1.5rem;
    border-radius: 4px;
    margin-bottom: 1rem;
}

.alert-success {
    background: #d1fae5;
    color: #065f46;
    border-left: 4px solid #10b981;
}

.alert-warning {
    background: #fed7aa;
    color: #7c2d12;
    border-left: 4px solid #f59e0b;
}

.alert-danger {
    background: #fee2e2;
    color: #7f1d1d;
    border-left: 4px solid #ef4444;
}

body.dark-mode .alert-success {
    background: #064e3b;
    color: #6ee7b7;
}

body.dark-mode .alert-warning {
    background: #78350f;
    color: #fde68a;
}

body.dark-mode .alert-danger {
    background: #7f1d1d;
    color: #fca5a5;
}

.severity-breakdown {
    margin-top: 2rem;
}

.severity-stats {
    display: flex;
    gap: 2rem;
    margin: 1.5rem 0;
    flex-wrap: wrap;
}

.stat {
    flex: 1;
    min-width: 100px;
    text-align: center;
    padding: 1rem;
    border-radius: 8px;
    background: var(--background);
    border: 2px solid var(--border-color);
}

.stat .count {
    display: block;
    font-size: 2rem;
    font-weight: bold;
    margin-bottom: 0.5rem;
}

.stat.critical {
    border-color: #ef4444;
    color: #ef4444;
}

.stat.high {
    border-color: #f59e0b;
    color: #f59e0b;
}

.stat.medium {
    border-color: #eab308;
    color: #eab308;
}

.stat.low {
    border-color: #3b82f6;
    color: #3b82f6;
}

.stat.info {
    border-color: #6b7280;
    color: #6b7280;
}

.info-table {
    width: 100%;
    border-collapse: collapse;
}

.info-table td {
    padding: 0.75rem;
    border-bottom: 1px solid var(--border-color);
}

.info-table td:first-child {
    font-weight: 600;
    width: 40%;
}

.health-score {
    text-align: center;
    padding: 3rem;
    border-radius: 12px;
    margin: 2rem 0;
}

.health-score.excellent {
    background: linear-gradient(135deg, #10b981, #34d399);
    color: white;
}

.health-score.good {
    background: linear-gradient(135deg, #3b82f6, #60a5fa);
    color: white;
}

.health-score.fair {
    background: linear-gradient(135deg, #f59e0b, #fbbf24);
    color: white;
}

.health-score.poor {
    background: linear-gradient(135deg, #ef4444, #f87171);
    color: white;
}

.score-value {
    font-size: 4rem;
    font-weight: bold;
    margin-bottom: 0.5rem;
}

.score-label {
    font-size: 1.5rem;
    font-weight: 500;
}

.health-details {
    margin-top: 2rem;
    padding: 1.5rem;
    background: var(--background);
    border-radius: 8px;
}

.health-details ul {
    margin-left: 2rem;
    margin-top: 1rem;
}

.filters {
    display: flex;
    gap: 2rem;
    margin-bottom: 2rem;
    padding: 1rem;
    background: var(--background);
    border-radius: 8px;
    align-items: center;
    flex-wrap: wrap;
}

.filters label {
    font-weight: 600;
}

.filters select {
    padding: 0.5rem 1rem;
    border: 1px solid var(--border-color);
    border-radius: 4px;
    background: var(--surface);
    color: var(--text-primary);
    cursor: pointer;
}

.findings-list {
    display: flex;
    flex-direction: column;
    gap: 1.5rem;
}

.finding {
    padding: 1.5rem;
    border-radius: 8px;
    border-left: 4px solid;
    background: var(--background);
    transition: all 0.3s;
}

.finding.hidden {
    display: none;
}

.finding.critical {
    border-color: #ef4444;
}

.finding.high {
    border-color: #f59e0b;
}

.finding.medium {
    border-color: #eab308;
}

.finding.low {
    border-color: #3b82f6;
}

.finding.info {
    border-color: #6b7280;
}

.finding-header {
    display: flex;
    align-items: center;
    gap: 1rem;
    margin-bottom: 1rem;
}

.finding-header h3 {
    flex: 1;
    font-size: 1.2rem;
    margin: 0;
}

.severity-badge {
    padding: 0.25rem 0.75rem;
    border-radius: 4px;
    font-size: 0.875rem;
    font-weight: 600;
    text-transform: uppercase;
}

.severity-badge.critical {
    background: #ef4444;
    color: white;
}

.severity-badge.high {
    background: #f59e0b;
    color: white;
}

.severity-badge.medium {
    background: #eab308;
    color: white;
}

.severity-badge.low {
    background: #3b82f6;
    color: white;
}

.severity-badge.info {
    background: #6b7280;
    color: white;
}

.category-badge {
    padding: 0.25rem 0.75rem;
    border-radius: 4px;
    font-size: 0.875rem;
    background: var(--surface);
    border: 1px solid var(--border-color);
}

.description {
    color: var(--text-secondary);
    margin-bottom: 1rem;
}

.impact,
.remediation {
    margin-top: 1rem;
    padding: 1rem;
    background: var(--surface);
    border-radius: 4px;
}

.impact,
.remediation {
    margin-top: 1rem;
    padding: 1rem;
    background: var(--surface);
    border-radius: 4px;
}

.remediation ol {
    margin-left: 1.5rem;
    margin-top: 0.5rem;
}

.evidence {
    margin-top: 1rem;
}

.evidence summary {
    cursor: pointer;
    padding: 0.5rem;
    background: var(--surface);
    border-radius: 4px;
    user-select: none;
}

.evidence-content {
    margin-top: 1rem;
    padding: 1rem;
    background: var(--background);
    border-radius: 4px;
}

.evidence-content ul {
    margin-left: 1.5rem;
    margin-top: 0.5rem;
}

.evidence-content strong {
    display: block;
    margin-top: 0.5rem;
}

footer {
    text-align: center;
    padding: 2rem;
    color: var(--text-secondary);
    border-top: 1px solid var(--border-color);
    margin-top: 3rem;
}

@media (max-width: 768px) {
    .container {
        padding: 1rem;
    }
    
    header h1 {
        font-size: 1.8rem;
    }
    
    .meta-info {
        flex-direction: column;
        align-items: flex-start;
        gap: 0.5rem;
    }
    
    .theme-toggle {
        margin-left: 0;
        margin-top: 1rem;
    }
    
    .navigation ul {
        flex-direction: column;
        gap: 0.5rem;
    }
    
    .severity-stats {
        flex-direction: column;
    }
    
    .stat {
        min-width: auto;
    }
    
    .filters {
        flex-direction: column;
        align-items: stretch;
    }
    
    .filters select {
        width: 100%;
    }
}

@media print {
    .theme-toggle,
    .navigation,
    .filters {
        display: none;
    }
    
    body {
        background: white;
        color: black;
    }
    
    .card {
        box-shadow: none;
        border: 1px solid #ddd;
    }
}"#;

/// The report's script: the dark mode toggle, the finding filters and printing.
pub const REPORT_JS: &'static str = r#"// Dark mode toggle
const themeToggle = document.getElementById('theme-toggle');
if (themeToggle) {
    // Check for saved theme preference
    const savedTheme = localStorage.getItem('theme');
    if (savedTheme === 'dark' || (!savedTheme && window.matchMedia('(prefers-color-scheme: dark)').matches)) {
        document.body.classList.add('dark-mode');
        themeToggle.textContent = '☀️';
    }
    
    themeToggle.addEventListener('click', () => {
        document.body.classList.toggle('dark-mode');
        const isDark = document.body.classList.contains('dark-mode');
        themeToggle.textContent = isDark ? '☀️' : '🌙';
        localStorage.setItem('theme', isDark ? 'dark' : 'light');
    });
}

// Filtering functionality
const severityFilter = document.getElementById('severity-filter');
const categoryFilter = document.getElementById('category-filter');
const findings = document.querySelectorAll('.finding');

function filterFindings() {
    const selectedSeverity = severityFilter ? severityFilter.value : 'all';
    const selectedCategory = categoryFilter ? categoryFilter.value : 'all';
    
    findings.forEach(finding => {
        const severity = finding.dataset.severity;
        const category = finding.dataset.category;
        
        const severityMatch = selectedSeverity === 'all' || severity === selectedSeverity;
        const categoryMatch = selectedCategory === 'all' || category === selectedCategory;
        
        if (severityMatch && categoryMatch) {
            finding.classList.remove('hidden');
        } else {
            finding.classList.add('hidden');
        }
    });
    
    // Update count
    const visibleCount = document.querySelectorAll('.finding:not(.hidden)').length;
    updateFindingsCount(visibleCount);
}

function updateFindingsCount(count) {
    const heading = document.querySelector('#findings h2');
    if (heading) {
        const baseText = 'Detailed Findings';
        heading.textContent = `${baseText} (${count})`;
    }
}

if (severityFilter) {
    severityFilter.addEventListener('change', filterFindings);
}

if (categoryFilter) {
    categoryFilter.addEventListener('change', filterFindings);
}

// Smooth scrolling for navigation links
document.querySelectorAll('.navigation a').forEach(link => {
    link.addEventListener('click', function(e) {
        e.preventDefault();
        const targetId = this.getAttribute('href').substring(1);
        const targetElement = document.getElementById(targetId);
        if (targetElement) {
            targetElement.scrollIntoView({ behavior: 'smooth', block: 'start' });
        }
    });
});

// Highlight current section in navigation
function highlightCurrentSection() {
    const sections = document.querySelectorAll('section[id]');
    const navLinks = document.querySelectorAll('.navigation a');
    
    const observer = new IntersectionObserver((entries) => {
        entries.forEach(entry => {
            if (entry.isIntersecting) {
                const id = entry.target.getAttribute('id');
                navLinks.forEach(link => {
                    if (link.getAttribute('href') === `#${id}`) {
                        link.classList.add('active');
                    } else {
                        link.classList.remove('active');
                    }
                });
            }
        });
    }, {
        rootMargin: '-100px 0px -70% 0px'
    });
    
    sections.forEach(section => {
        observer.observe(section);
    });
}

// Initialize on page load
document.addEventListener('DOMContentLoaded', () => {
    highlightCurrentSection();
    updateFindingsCount(findings.length);
});

// Print functionality
window.addEventListener('beforeprint', () => {
    // Expand all details elements before printing
    document.querySelectorAll('details').forEach(details => {
        details.setAttribute('open', '');
    });
});

window.addEventListener('afterprint', () => {
    // Collapse details elements after printing
    document.querySelectorAll('details').forEach(details => {
        details.removeAttribute('open');
    });
});"#;

impl HtmlReporter {
    /// The report's style sheet.
    pub fn generate_css(&self) -> (r: String)
        ensures
            r@ == REPORT_CSS@,
    {
        owned(REPORT_CSS)
    }

    /// The report's script.
    pub fn generate_javascript(&self) -> (r: String)
        ensures
            r@ == REPORT_JS@,
    {
        owned(REPORT_JS)
    }
}

} // verus!
