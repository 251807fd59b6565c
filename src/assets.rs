use vstd::prelude::*;

verus! {

/// Stylesheet put in front of every chapter: the look of the toggle button and
/// of the hidden answer region.
pub const STYLE_BLOCK: &'static str = "\n<style>\n.answer-toggle {\n    display: inline-flex;\n    align-items: center;\n    cursor: pointer;\n    color: #666;\n    padding: 4px 8px;\n    font-size: 0.9em;\n    margin: 0.5rem 0;\n    border: none;\n    background: none;\n    transition: color 0.2s ease;\n}\n\n.answer-toggle:hover {\n    color: #333;\n}\n\n.toggle-icon {\n    margin-right: 6px;\n}\n\n.toggle-icon svg {\n    width: 16px;\n    height: 16px;\n    vertical-align: middle;\n}\n\n.hidden-content {\n    display: none;\n    margin-top: 8px;\n}\n\n.icon-eye {\n    fill: none;\n    stroke: currentColor;\n    stroke-width: 2;\n    stroke-linecap: round;\n    stroke-linejoin: round;\n}\n\n/* 确保不影响 markdown 内容的样式 */\n.markdown-content {\n    display: block;\n}\n.markdown-content > :first-child {\n    margin-top: 0;\n}\n.markdown-content > :last-child {\n    margin-bottom: 0;\n}\n</style>\n";

/// Script put in front of every chapter: shows or hides the answer when its
/// button is clicked.
pub const SCRIPT_BLOCK: &'static str = "\n<script>\nwindow.addEventListener('load', function() {\n    document.querySelectorAll('.hidden-content').forEach(content => {\n        content.style.display = 'none';\n    });\n\n    document.querySelectorAll('.answer-toggle').forEach(button => {\n        button.addEventListener('click', function() {\n            const container = this.closest('.qa-container');\n            const content = container.querySelector('.hidden-content');\n            const svg = this.querySelector('svg');\n            const text = this.querySelector('.toggle-text');\n\n            if (content.style.display === 'none') {\n                content.style.display = 'block';\n                text.textContent = '隐藏答案';\n                svg.innerHTML = `\n                    <path class=\"icon-eye\" d=\"M1 12s4-8 11-8 11 8 11 8-4 8-11 8-11-8-11-8z\"></path>\n                    <path class=\"icon-eye\" d=\"M12 12m-3 0a3 3 0 1 0 6 0a3 3 0 1 0 -6 0\"></path>\n                    <path class=\"icon-eye\" d=\"M3 3l18 18\"></path>\n                `;\n            } else {\n                content.style.display = 'none';\n                text.textContent = '显示答案';\n                svg.innerHTML = `\n                    <path class=\"icon-eye\" d=\"M1 12s4-8 11-8 11 8 11 8-4 8-11 8-11-8-11-8z\"></path>\n                    <path class=\"icon-eye\" d=\"M12 12m-3 0a3 3 0 1 0 6 0a3 3 0 1 0 -6 0\"></path>\n                `;\n            }\n        });\n    });\n});\n</script>\n";

/// Markup that follows a question's title and opens the collapsible answer.
pub const WIDGET_HEAD: &'static str = "\n<div class=\"qa-container\">\n<button class=\"answer-toggle\" aria-label=\"Toggle answer\">\n    <span class=\"toggle-icon\">\n        <svg xmlns=\"http://www.w3.org/2000/svg\" viewBox=\"0 0 24 24\" width=\"16\" height=\"16\">\n            <path class=\"icon-eye\" d=\"M1 12s4-8 11-8 11 8 11 8-4 8-11 8-11-8-11-8z\"></path>\n            <path class=\"icon-eye\" d=\"M12 12m-3 0a3 3 0 1 0 6 0a3 3 0 1 0 -6 0\"></path>\n        </svg>\n    </span>\n    <span class=\"toggle-text\">显示答案</span>\n</button>\n<div class=\"hidden-content\">\n\n";

/// Markup that closes the collapsible answer.
pub const WIDGET_TAIL: &'static str = "\n\n</div>\n</div>";

/// The shared assets put in front of a chapter's content.
pub open spec fn assets() -> Seq<char> {
    STYLE_BLOCK@ + seq!['\n'] + SCRIPT_BLOCK@ + seq!['\n']
}

/// No character of the shared assets is an `@`.
pub proof fn lemma_assets_free_of_at()
    ensures
        forall|i: int| 0 <= i < assets().len() ==> assets()[i] != '@',
{
    reveal_strlit("\n<style>\n.answer-toggle {\n    display: inline-flex;\n    align-items: center;\n    cursor: pointer;\n    color: #666;\n    padding: 4px 8px;\n    font-size: 0.9em;\n    margin: 0.5rem 0;\n    border: none;\n    background: none;\n    transition: color 0.2s ease;\n}\n\n.answer-toggle:hover {\n    color: #333;\n}\n\n.toggle-icon {\n    margin-right: 6px;\n}\n\n.toggle-icon svg {\n    width: 16px;\n    height: 16px;\n    vertical-align: middle;\n}\n\n.hidden-content {\n    display: none;\n    margin-top: 8px;\n}\n\n.icon-eye {\n    fill: none;\n    stroke: currentColor;\n    stroke-width: 2;\n    stroke-linecap: round;\n    stroke-linejoin: round;\n}\n\n/* 确保不影响 markdown 内容的样式 */\n.markdown-content {\n    display: block;\n}\n.markdown-content > :first-child {\n    margin-top: 0;\n}\n.markdown-content > :last-child {\n    margin-bottom: 0;\n}\n</style>\n");
    reveal_strlit("\n<script>\nwindow.addEventListener('load', function() {\n    document.querySelectorAll('.hidden-content').forEach(content => {\n        content.style.display = 'none';\n    });\n\n    document.querySelectorAll('.answer-toggle').forEach(button => {\n        button.addEventListener('click', function() {\n            const container = this.closest('.qa-container');\n            const content = container.querySelector('.hidden-content');\n            const svg = this.querySelector('svg');\n            const text = this.querySelector('.toggle-text');\n\n            if (content.style.display === 'none') {\n                content.style.display = 'block';\n                text.textContent = '隐藏答案';\n                svg.innerHTML = `\n                    <path class=\"icon-eye\" d=\"M1 12s4-8 11-8 11 8 11 8-4 8-11 8-11-8-11-8z\"></path>\n                    <path class=\"icon-eye\" d=\"M12 12m-3 0a3 3 0 1 0 6 0a3 3 0 1 0 -6 0\"></path>\n                    <path class=\"icon-eye\" d=\"M3 3l18 18\"></path>\n                `;\n            } else {\n                content.style.display = 'none';\n                text.textContent = '显示答案';\n                svg.innerHTML = `\n                    <path class=\"icon-eye\" d=\"M1 12s4-8 11-8 11 8 11 8-4 8-11 8-11-8-11-8z\"></path>\n                    <path class=\"icon-eye\" d=\"M12 12m-3 0a3 3 0 1 0 6 0a3 3 0 1 0 -6 0\"></path>\n                `;\n            }\n        });\n    });\n});\n</script>\n");
}

} // verus!
